use assembl_really::interpreter::{define_data, handle_instruction, handle_variable};
use assembl_really::machine::executing_context::ExecutingContext;
use assembl_really::machine::flags::Flag;
use assembl_really::machine::register::{RegisterData, RegisterName};
use assembl_really::parser::instruction::Instruction;
use assembl_really::parser::line::{Line, MemType};
use assembl_really::parser::parse_lines;
use assembl_really::parser::token::Token;
use assembl_really::{resume, start, step, Action, AsmrRuntimeError, Event};

/// What a run of a program came to: how it ended, what it wrote, and the
/// machine it left.
struct Run {
    end: Result<u8, AsmrRuntimeError>,
    output: String,
    ctx: ExecutingContext,
}

fn parse(source: &[&str]) -> Vec<Line> {
    let lines: Vec<String> = source.iter().map(|line| line.to_string()).collect();
    parse_lines(&lines).unwrap()
}

/// Runs `source` as the host would, with `input` as the lines of standard
/// input.
fn run(source: &[&str], input: &[&str]) -> Run {
    let program = parse(source);
    let mut ctx = start(&program);
    let mut output = String::new();
    let mut input = input.iter();
    for _ in 0..10_000 {
        let action = match step(&program, &mut ctx) {
            Ok(action) => action,
            Err(error) => return Run { end: Err(error), output, ctx },
        };
        let event = match action {
            Action::Continue => continue,
            Action::Exit(code) => return Run { end: Ok(code), output, ctx },
            Action::Print(text) => {
                output.push_str(&text);
                Event::Printed
            },
            Action::ReadLine => Event::Line(input.next().expect("a line of input").to_string()),
        };
        if let Err(error) = resume(&event, &mut ctx) {
            return Run { end: Err(error), output, ctx };
        }
    }
    panic!("the program did not end");
}

fn raw(ctx: &ExecutingContext, name: RegisterName) -> i32 {
    ctx.registers.get(name).get_raw()
}

fn data(ctx: &ExecutingContext, name: RegisterName) -> RegisterData {
    ctx.registers.get(name).data
}

fn fails(source: &[&str], line_number: usize, cause: &str) {
    let run = run(source, &[]);
    assert_eq!(run.end, Err(AsmrRuntimeError { line_number, cause: cause.to_string() }));
}

#[test]
fn start_seeds_the_stack_and_the_labels() {
    let program = parse(&["main:", "nop", ".loop:", "jmp .loop", "main:"]);
    let ctx = start(&program);
    assert_eq!(ctx.stack, vec![RegisterData::Pointer(5), RegisterData::Pointer(0)]);
    assert_eq!(data(&ctx, RegisterName::Esp), RegisterData::Pointer(1));
    assert_eq!(data(&ctx, RegisterName::Ebp), RegisterData::Pointer(1));
    assert_eq!(data(&ctx, RegisterName::Eip), RegisterData::Pointer(0));
    assert_eq!(data(&ctx, RegisterName::Eax), RegisterData::Value(0));
    assert_eq!(ctx.ptr, 0);
    assert_eq!(ctx.next, 1);
    assert_eq!(ctx.labels.get(".loop"), Some(&2));
    assert_eq!(ctx.labels.get("main"), Some(&4));
    assert_eq!(ctx.labels.get("nop"), None);
    assert!(ctx.heap.is_empty());
}

#[test]
fn print_writes_a_value_in_decimal() {
    let run = run(&["mov eax, 7", "push eax", "call asmr::io::print"], &[]);
    assert_eq!(run.output, "7");
    assert_eq!(run.end, Ok(7));
    assert_eq!(run.ctx.stack, vec![RegisterData::Pointer(3), RegisterData::Pointer(0)]);
}

#[test]
fn print_writes_negative_values() {
    let run = run(&["mov eax, 0", "sub eax, 2147483647", "dec eax", "push eax", "call asmr::io::print"], &[]);
    assert_eq!(run.output, "-2147483648");
    assert_eq!(run.end, Ok(0));
}

#[test]
fn print_writes_the_buffer_under_a_pointer() {
    let run = run(&["msg db \"hi\", 0xa", "mov eax, msg", "push eax", "call asmr::io::print"], &[]);
    let mut expected = String::from("hi");
    for byte in 10i32.to_ne_bytes() {
        expected.push(char::from(byte));
    }
    assert_eq!(run.output, expected);
    if u16::from_ne_bytes([1, 0]) == 1 {
        assert_eq!(run.output, "hi\n\0\0\0");
    }
    assert_eq!(run.end, Ok(0));
}

#[test]
fn print_reads_each_byte_as_one_character() {
    let run = run(&["msg db \"é\"", "mov eax, msg", "push eax", "call asmr::io::print"], &[]);
    assert_eq!(run.output, "\u{c3}\u{a9}");
}

#[test]
fn add_sets_the_exit_code() {
    let run = run(&["mov eax, 3", "mov ebx, 4", "add eax, ebx"], &[]);
    assert_eq!(run.end, Ok(7));
    assert_eq!(run.output, "");
}

#[test]
fn loop_counts_to_three() {
    let run = run(&["mov ecx, 0", ".loop:", "inc ecx", "cmp ecx, 3", "jne .loop", "mov eax, ecx"], &[]);
    assert_eq!(run.end, Ok(3));
}

#[test]
fn readln_fills_the_buffer() {
    let run = run(
        &[
            "msg resb 16",
            "mov eax, msg",
            "push eax",
            "call asmr::io::readln",
            "push eax",
            "call asmr::io::print",
        ],
        &["hello\n"],
    );
    assert_eq!(run.output, "hello");
    assert_eq!(run.end, Ok(0));
    assert_eq!(run.ctx.heap, vec![b"hello".to_vec()]);
}

#[test]
fn readln_strips_one_line_ending_only() {
    let source = ["msg resb 4", "mov eax, msg", "push eax", "call asmr::io::readln"];
    assert_eq!(run(&source, &["  a b \r\n"]).ctx.heap, vec![b"  a b ".to_vec()]);
    assert_eq!(run(&source, &["a\n\n"]).ctx.heap, vec![b"a\n".to_vec()]);
    assert_eq!(run(&source, &["a\r"]).ctx.heap, vec![b"a\r".to_vec()]);
    assert_eq!(run(&source, &["no ending"]).ctx.heap, vec![b"no ending".to_vec()]);
    assert_eq!(run(&source, &["\n"]).ctx.heap, vec![Vec::<u8>::new()]);
    assert_eq!(run(&source, &["ü\n"]).ctx.heap, vec!["ü".as_bytes().to_vec()]);
}

#[test]
fn call_and_ret_restore_the_frame() {
    let program = parse(&["mov eax, 5", "push eax", "call double", "double:", "add eax, eax", "ret"]);
    let mut ctx = start(&program);
    for _ in 0..2 {
        assert_eq!(step(&program, &mut ctx), Ok(Action::Continue));
    }
    let esp = data(&ctx, RegisterName::Esp);
    let ebp = data(&ctx, RegisterName::Ebp);
    let stack = ctx.stack.clone();
    assert_eq!(esp, RegisterData::Pointer(2));

    // call double
    assert_eq!(step(&program, &mut ctx), Ok(Action::Continue));
    assert_eq!(ctx.ptr, 3);
    assert_eq!(
        ctx.stack,
        vec![
            RegisterData::Pointer(6),
            RegisterData::Pointer(0),
            RegisterData::Value(5),
            RegisterData::Pointer(2),
            RegisterData::Pointer(1),
        ]
    );
    assert_eq!(data(&ctx, RegisterName::Ebp), RegisterData::Pointer(4));
    assert_eq!(data(&ctx, RegisterName::Esp), RegisterData::Pointer(4));

    // double:, add eax, eax, ret
    for _ in 0..3 {
        assert_eq!(step(&program, &mut ctx), Ok(Action::Continue));
    }
    assert_eq!(data(&ctx, RegisterName::Esp), esp);
    assert_eq!(data(&ctx, RegisterName::Ebp), ebp);
    assert_eq!(ctx.stack, stack);
    assert_eq!(raw(&ctx, RegisterName::Eax), 10);
    assert_eq!(ctx.ptr, 3);

    // The body is entered once more by falling into it, and its `ret` leaves
    // the program through the frame that `start` has seeded.
    let run = run(&["mov eax, 5", "push eax", "call double", "double:", "add eax, eax", "ret"], &[]);
    assert_eq!(run.end, Ok(20));
    assert_eq!(run.ctx.stack, vec![RegisterData::Value(5)]);
}

#[test]
fn push_then_pop_changes_nothing() {
    let program = parse(&["mov ebx, 9", "push ebx", "pop ebx", "push esp", "pop esp"]);
    let mut ctx = start(&program);
    assert_eq!(step(&program, &mut ctx), Ok(Action::Continue));
    let stack = ctx.stack.clone();
    let esp = data(&ctx, RegisterName::Esp);
    for _ in 0..4 {
        assert_eq!(step(&program, &mut ctx), Ok(Action::Continue));
        assert_eq!(data(&ctx, RegisterName::Ebx), RegisterData::Value(9));
    }
    assert_eq!(ctx.stack, stack);
    assert_eq!(data(&ctx, RegisterName::Esp), esp);
}

#[test]
fn push_takes_several_registers() {
    let run = run(&["mov eax, 1", "mov ebx, 2", "push eax, ebx", "pop ecx", "pop edx"], &[]);
    assert_eq!(raw(&run.ctx, RegisterName::Ecx), 2);
    assert_eq!(raw(&run.ctx, RegisterName::Edx), 1);
    assert_eq!(run.end, Ok(1));
}

#[test]
fn exit_code_is_the_low_byte_of_eax() {
    assert_eq!(run(&["mov eax, 256"], &[]).end, Ok(0));
    assert_eq!(run(&["mov eax, 511"], &[]).end, Ok(255));
    assert_eq!(run(&["mov eax, 0", "dec eax"], &[]).end, Ok(255));
    assert_eq!(run(&["mov eax, 0", "sub eax, 256"], &[]).end, Ok(0));
    assert_eq!(run(&["mov eax, 0x1a35e"], &[]).end, Ok(0x5e));
    assert_eq!(run(&[], &[]).end, Ok(0));
}

#[test]
fn mov_copies_tags() {
    let run = run(&["buf resb 1", "other db 1", "mov eax, other", "mov ebx, eax", "mov ecx, 5", "mov edx, esp"], &[]);
    assert_eq!(data(&run.ctx, RegisterName::Eax), RegisterData::Pointer(1));
    assert_eq!(data(&run.ctx, RegisterName::Ebx), RegisterData::Pointer(1));
    assert_eq!(data(&run.ctx, RegisterName::Ecx), RegisterData::Value(5));
    assert_eq!(data(&run.ctx, RegisterName::Edx), RegisterData::Pointer(1));
}

#[test]
fn xchg_swaps() {
    let run = run(&["x db 1", "mov eax, x", "mov ebx, 7", "xchg eax, ebx", "xchg ecx, ecx"], &[]);
    assert_eq!(data(&run.ctx, RegisterName::Eax), RegisterData::Value(7));
    assert_eq!(data(&run.ctx, RegisterName::Ebx), RegisterData::Pointer(0));
    assert_eq!(data(&run.ctx, RegisterName::Ecx), RegisterData::Value(0));
}

#[test]
fn arithmetic_wraps_and_keeps_the_tag() {
    let run1 = run(&["mov eax, 2147483647", "add eax, 1", "mov ebx, 0", "sub ebx, 2147483647", "sub ebx, 2", "mov ecx, 65536", "mul ecx, 65537"], &[]);
    assert_eq!(data(&run1.ctx, RegisterName::Eax), RegisterData::Value(i32::MIN));
    assert_eq!(data(&run1.ctx, RegisterName::Ebx), RegisterData::Value(i32::MAX));
    assert_eq!(data(&run1.ctx, RegisterName::Ecx), RegisterData::Value(65536));

    let run2 = run(&["a db 1", "b db 2", "mov eax, b", "add eax, 4", "mul eax, 3", "sub eax, 1", "inc eax", "div eax, 2", "dec eax"], &[]);
    assert_eq!(data(&run2.ctx, RegisterName::Eax), RegisterData::Pointer(6));
}

#[test]
fn div_rounds_towards_zero() {
    let quotient = |a: &str, b: &str| {
        let first = format!("mov eax, 0");
        let second = format!("add eax, {a}");
        let third = format!("mov ebx, 0");
        let fourth = format!("add ebx, {b}");
        let run = run(&[&first, &second, &third, &fourth, "div eax, ebx"], &[]);
        raw(&run.ctx, RegisterName::Eax)
    };
    assert_eq!(quotient("7", "2"), 3);
    assert_eq!(quotient("7", "1"), 7);
    assert_eq!(quotient("0", "5"), 0);
    assert_eq!(quotient("2147483647", "2147483647"), 1);
    let negative = run(&["mov eax, 0", "sub eax, 7", "div eax, 2", "mov ebx, 7", "mov ecx, 0", "sub ecx, 2", "div ebx, ecx", "mov edx, 0", "sub edx, 7", "div edx, ecx"], &[]);
    assert_eq!(raw(&negative.ctx, RegisterName::Eax), -3);
    assert_eq!(raw(&negative.ctx, RegisterName::Ebx), -3);
    assert_eq!(raw(&negative.ctx, RegisterName::Edx), 3);
    let overflow = run(&["mov eax, 0", "sub eax, 2147483647", "dec eax", "mov ebx, 0", "dec ebx", "div eax, ebx"], &[]);
    assert_eq!(raw(&overflow.ctx, RegisterName::Eax), i32::MIN);
    assert_eq!(overflow.end, Ok(0));
}

#[test]
fn div_by_zero_is_an_error() {
    fails(&["mov eax, 1", "div eax, 0"], 1, "`div` requires the divisor to be different from 0");
    fails(&["div eax, ebx"], 0, "`div` requires the divisor to be different from 0");
}

#[test]
fn shifts_take_the_count_modulo_32() {
    let run = run(&["mov eax, 1", "shl eax, 4", "mov ebx, 1", "shl ebx, 33", "mov ecx, 0", "sub ecx, 16", "shr ecx, 2", "mov edx, 16", "shr edx, 0", "mov esi, 1", "shl esi, 31"], &[]);
    assert_eq!(raw(&run.ctx, RegisterName::Eax), 16);
    assert_eq!(raw(&run.ctx, RegisterName::Ebx), 2);
    assert_eq!(raw(&run.ctx, RegisterName::Ecx), -4);
    assert_eq!(raw(&run.ctx, RegisterName::Edx), 16);
    assert_eq!(raw(&run.ctx, RegisterName::Esi), i32::MIN);
}

#[test]
fn shifts_refuse_negative_counts() {
    let mut ctx = ExecutingContext::new();
    ctx.ptr = 4;
    let params = vec![Token::Register(RegisterName::Eax), Token::Numeric(-1)];
    assert_eq!(
        handle_instruction(&Instruction::Shl, &params, &mut ctx),
        Err(AsmrRuntimeError {
            line_number: 4,
            cause: "`shl` requires the parameter <Numeric> to be greater than or equal to 0".to_string(),
        })
    );
    assert_eq!(
        handle_instruction(&Instruction::Shr, &params, &mut ctx),
        Err(AsmrRuntimeError {
            line_number: 4,
            cause: "`shr` requires the parameter <Numeric> to be greater than or equal to 0".to_string(),
        })
    );
    fails(&["shl eax, ebx"], 0, "`shl` takes parameters of type <Register, Numeric>");
}

#[test]
fn logic_works_on_the_raw_integer() {
    let run = run(&["mov eax, 12", "and eax, 10", "mov ebx, 12", "or ebx, 10", "mov ecx, 12", "xor ecx, 10", "mov edx, 0", "not edx", "x db 1", "y db 1", "mov esi, y", "not esi"], &[]);
    assert_eq!(raw(&run.ctx, RegisterName::Eax), 8);
    assert_eq!(raw(&run.ctx, RegisterName::Ebx), 14);
    assert_eq!(raw(&run.ctx, RegisterName::Ecx), 6);
    assert_eq!(data(&run.ctx, RegisterName::Edx), RegisterData::Value(-1));
    assert_eq!(data(&run.ctx, RegisterName::Esi), RegisterData::Pointer(-2));
}

fn flags_after(source: &[&str]) -> [bool; 4] {
    let run = run(source, &[]);
    [
        run.ctx.flags.get(Flag::CF),
        run.ctx.flags.get(Flag::ZF),
        run.ctx.flags.get(Flag::SF),
        run.ctx.flags.get(Flag::OF),
    ]
}

#[test]
fn cmp_sets_zero_and_carry() {
    assert_eq!(flags_after(&["mov eax, 3", "cmp eax, 3"]), [false, true, false, false]);
    assert_eq!(flags_after(&["mov eax, 4", "cmp eax, 3"]), [false, false, false, false]);
    assert_eq!(flags_after(&["mov eax, 2", "cmp eax, 3"]), [true, false, false, false]);
    assert_eq!(flags_after(&["mov eax, 2", "mov ebx, 3", "cmp eax, ebx", "cmp ebx, eax"]), [false, false, false, false]);
    assert_eq!(flags_after(&["mov eax, 0", "dec eax", "cmp eax, 1"]), [true, false, false, false]);
    // `cmp` leaves the sign flag as `test` has set it.
    assert_eq!(flags_after(&["mov eax, 0", "dec eax", "test eax, eax", "cmp eax, eax"]), [false, true, true, false]);
}

#[test]
fn test_sets_zero_and_sign() {
    assert_eq!(flags_after(&["mov eax, 12", "test eax, 3"]), [false, true, false, false]);
    assert_eq!(flags_after(&["mov eax, 12", "test eax, 4"]), [false, false, false, false]);
    assert_eq!(flags_after(&["mov eax, 0", "dec eax", "test eax, eax"]), [false, false, true, false]);
    assert_eq!(flags_after(&["mov eax, 2", "cmp eax, 3", "test eax, eax"]), [false, false, false, false]);
}

fn jumps(flags: &[Flag], instruction: Instruction) -> bool {
    let program = parse(&["nop", "nop", "target:"]);
    let mut ctx = start(&program);
    for flag in flags {
        let flag = match flag {
            Flag::CF => Flag::CF,
            Flag::ZF => Flag::ZF,
            Flag::SF => Flag::SF,
            Flag::OF => Flag::OF,
        };
        ctx.flags.set(flag);
    }
    let params = vec![Token::Identifier("target".to_string())];
    assert_eq!(handle_instruction(&instruction, &params, &mut ctx), Ok(Action::Continue));
    assert!(ctx.next == 1 || ctx.next == 2);
    ctx.next == 2
}

#[test]
fn jumps_follow_the_flags() {
    let none: [Flag; 0] = [];
    assert!(jumps(&none, Instruction::Jmp));
    assert!(jumps(&[Flag::ZF, Flag::SF], Instruction::Jmp));

    for (taken, other) in [(Instruction::Jz, Instruction::Jnz), (Instruction::Je, Instruction::Jne)] {
        assert!(jumps(&[Flag::ZF], taken));
        assert!(!jumps(&[Flag::ZF], other));
    }
    for (skipped, other) in [(Instruction::Jz, Instruction::Jnz), (Instruction::Je, Instruction::Jne)] {
        assert!(!jumps(&[Flag::CF], skipped));
        assert!(jumps(&[Flag::CF], other));
    }

    assert!(jumps(&none, Instruction::Jg));
    assert!(jumps(&[Flag::SF, Flag::OF], Instruction::Jg));
    assert!(!jumps(&[Flag::ZF], Instruction::Jg));
    assert!(!jumps(&[Flag::SF], Instruction::Jg));
    assert!(!jumps(&[Flag::OF], Instruction::Jg));

    assert!(jumps(&none, Instruction::Jge));
    assert!(jumps(&[Flag::ZF], Instruction::Jge));
    assert!(jumps(&[Flag::SF, Flag::OF], Instruction::Jge));
    assert!(!jumps(&[Flag::SF], Instruction::Jge));

    assert!(!jumps(&none, Instruction::Jl));
    assert!(jumps(&[Flag::SF], Instruction::Jl));
    assert!(jumps(&[Flag::OF], Instruction::Jl));
    assert!(!jumps(&[Flag::SF, Flag::OF], Instruction::Jl));

    assert!(!jumps(&none, Instruction::Jle));
    assert!(jumps(&[Flag::ZF], Instruction::Jle));
    assert!(jumps(&[Flag::SF], Instruction::Jle));
    assert!(!jumps(&[Flag::SF, Flag::OF], Instruction::Jle));
    assert!(jumps(&[Flag::ZF, Flag::SF, Flag::OF], Instruction::Jle));
}

#[test]
fn jg_after_cmp_sees_the_flags_that_cmp_leaves() {
    // With the sign and overflow flags clear, `jg` is taken after `cmp`
    // exactly where the two differ.
    assert_eq!(run(&["mov eax, 5", "cmp eax, 3", "jg .end", "mov eax, 0", ".end:"], &[]).end, Ok(5));
    assert_eq!(run(&["mov eax, 3", "cmp eax, 3", "jg .end", "mov eax, 0", ".end:"], &[]).end, Ok(0));
    assert_eq!(run(&["mov eax, 1", "cmp eax, 3", "jg .end", "mov eax, 0", ".end:"], &[]).end, Ok(1));
}

#[test]
fn a_jump_that_is_taken_needs_its_label() {
    fails(&["jmp nowhere"], 0, "no address associated with identifier `nowhere`");
    fails(&["nop", "jne nowhere"], 1, "no address associated with identifier `nowhere`");
    assert_eq!(run(&["jz nowhere", "mov eax, 4"], &[]).end, Ok(4));
    fails(&["call nowhere"], 0, "no address associated with identifier `nowhere`");
}

#[test]
fn operands_of_the_wrong_shape_are_errors() {
    fails(&["nop eax"], 0, "`nop` takes no parameters");
    fails(&["push"], 0, "`push` takes parameters of type <...Register>");
    fails(&["nop", "push eax, 5"], 1, "`push` takes parameters of type <...Register>");
    fails(&["pop"], 0, "`pop` takes one parameter of type <Register>");
    fails(&["pop 5"], 0, "`pop` takes one parameter of type <Register>");
    fails(&["mov eax"], 0, "`mov` takes parameters of type <Register, [Register | Identifier | Numeric]>");
    fails(&["mov eax, \"text\""], 0, "`mov` takes parameters of type <Register, [Register | Identifier | Numeric]>");
    fails(&["mov 5, eax"], 0, "`mov` takes parameters of type <Register, [Register | Identifier | Numeric]>");
    fails(&["xchg eax, 5"], 0, "`xchg` takes parameters of type <Register, Register>");
    for opcode in ["add", "sub", "mul", "div", "cmp", "and", "or", "xor", "test"] {
        let message = format!("`{opcode}` takes parameters of type <Register, [Register | Numeric]>");
        fails(&[&format!("{opcode} eax")], 0, &message);
        fails(&[&format!("{opcode} 1, eax")], 0, &message);
        fails(&[&format!("{opcode} eax, name")], 0, &message);
        fails(&[&format!("{opcode} eax, ebx, ecx")], 0, &message);
    }
    for opcode in ["inc", "dec", "not"] {
        let message = format!("`{opcode}` takes one parameter of type <Register>");
        fails(&[opcode], 0, &message);
        fails(&[&format!("{opcode} 1")], 0, &message);
    }
    for opcode in ["shl", "shr"] {
        let message = format!("`{opcode}` takes parameters of type <Register, Numeric>");
        fails(&[&format!("{opcode} eax")], 0, &message);
        fails(&[&format!("{opcode} 1, 1")], 0, &message);
    }
    for opcode in ["jmp", "jz", "jnz", "jg", "jl", "jge", "jle", "je", "jne", "call"] {
        let message = format!("`{opcode}` takes one parameter of type <Identifier>");
        fails(&[opcode], 0, &message);
        fails(&[&format!("{opcode} eax")], 0, &message);
        fails(&[&format!("{opcode} a, b")], 0, &message);
    }
    fails(&["ret eax"], 0, "`ret` takes no parameters");
}

#[test]
fn a_failed_push_changes_nothing() {
    let mut ctx = ExecutingContext::new();
    let params = vec![Token::Register(RegisterName::Eax), Token::Numeric(1)];
    assert!(handle_instruction(&Instruction::Push, &params, &mut ctx).is_err());
    assert!(ctx.stack.is_empty());
    assert_eq!(data(&ctx, RegisterName::Esp), RegisterData::Pointer(0));
}

#[test]
fn mov_needs_a_known_identifier() {
    fails(&["nop", "mov eax, msg"], 1, "unknown identifier `msg`");
}

#[test]
fn pop_needs_a_stack_cell() {
    fails(&["pop eax", "pop eax", "pop eax"], 2, "stack pointer does not address a stack cell");
    fails(&["mov esp, 2", "pop eax"], 1, "stack pointer does not address a stack cell");
    fails(&["pop eax", "ret"], 1, "stack pointer does not address a stack cell");
}

#[test]
fn builtins_are_looked_up_by_name() {
    fails(&["push eax", "call asmr::io::println"], 1, "no function found: `asmr::io::println`");
    fails(&["call asmr::"], 0, "no function found: `asmr::`");
}

#[test]
fn readln_needs_a_pointer() {
    fails(&["mov eax, 1", "push eax", "call asmr::io::readln"], 2, "expected pointer but found value");
}

#[test]
fn builtins_need_their_parameter() {
    fails(&["mov esp, 0", "sub esp, 9", "call asmr::io::print"], 2, "parameter does not address a stack cell");
    fails(&["mov eax, esp", "add eax, 40", "push eax", "call asmr::io::print"], 3, "pointer does not address a heap buffer");
}

#[test]
fn resume_completes_the_call() {
    let program = parse(&["buf resb 8", "mov eax, buf", "push eax", "call asmr::io::readln", "nop"]);
    let mut ctx = start(&program);
    for _ in 0..3 {
        assert_eq!(step(&program, &mut ctx), Ok(Action::Continue));
    }
    assert_eq!(step(&program, &mut ctx), Ok(Action::ReadLine));
    // The machine waits inside the call: the frame is on the stack.
    assert_eq!(ctx.ptr, 3);
    assert_eq!(ctx.stack.len(), 5);
    assert_eq!(resume(&Event::Line("abc\n".to_string()), &mut ctx), Ok(Action::Continue));
    assert_eq!(ctx.ptr, 4);
    assert_eq!(ctx.next, 5);
    assert_eq!(ctx.stack, vec![RegisterData::Pointer(5), RegisterData::Pointer(0)]);
    assert_eq!(data(&ctx, RegisterName::Esp), RegisterData::Pointer(1));
    assert_eq!(data(&ctx, RegisterName::Ebp), RegisterData::Pointer(1));
    assert_eq!(data(&ctx, RegisterName::Eip), RegisterData::Pointer(4));
    assert_eq!(ctx.heap, vec![b"abc".to_vec()]);
}

#[test]
fn variables_are_laid_out_on_the_heap() {
    let run = run(&["a db \"ab\", 1, \"\"", "b resb 3", "c db 0x01020304", "a db 7"], &[]);
    let mut first = b"ab".to_vec();
    first.extend_from_slice(&1i32.to_ne_bytes());
    assert_eq!(
        run.ctx.heap,
        vec![first, vec![], 0x01020304i32.to_ne_bytes().to_vec(), 7i32.to_ne_bytes().to_vec()]
    );
    assert_eq!(run.ctx.symtab.get("a"), Some(&3));
    assert_eq!(run.ctx.symtab.get("b"), Some(&1));
    assert_eq!(run.ctx.symtab.get("c"), Some(&2));
    assert_eq!(run.end, Ok(0));
}

#[test]
fn variables_check_their_operands() {
    fails(&["a db eax"], 0, "`db` takes parameters of type <...[String | Numeric]>");
    fails(&["nop", "a db 1, name"], 1, "`db` takes parameters of type <...[String | Numeric]>");
    fails(&["a resb 1, 2"], 0, "`resb` takes one parameter of type <Numeric>");
    fails(&["a resb \"one\""], 0, "`resb` takes one parameter of type <Numeric>");
    fails(&["a resb 0"], 0, "`resb` requires the parameter <Numeric> to be greater than 0");
}

#[test]
fn errors_are_shown_with_lines_counted_from_one() {
    let error = AsmrRuntimeError::from(0, "cause");
    assert_eq!(error.to_string(), "Error on line 1: cause");
    let error = AsmrRuntimeError::from(usize::MAX, "");
    assert_eq!(error.to_string(), format!("Error on line {}: ", usize::MAX as u128 + 1));
}

#[test]
fn a_loop_computes_a_factorial() {
    let run = run(
        &[
            "    mov eax, 1",
            "    mov ecx, 5      ; the factors, from 5 down",
            ".loop:",
            "    mul eax, ecx",
            "    dec ecx",
            "    cmp ecx, 1",
            "    jne .loop",
            "    push eax",
            "    call asmr::io::print",
            "    mov eax, 0",
        ],
        &[],
    );
    assert_eq!(run.output, "120");
    assert_eq!(run.end, Ok(0));
    assert_eq!(raw(&run.ctx, RegisterName::Ecx), 1);
}

#[test]
fn a_program_greets_by_name() {
    let run = run(
        &[
            "hello db \"Hello, \"",
            "name resb 32",
            "bang db \"!\"",
            "mov eax, name",
            "push eax",
            "call asmr::io::readln",
            "mov eax, hello",
            "push eax",
            "call asmr::io::print",
            "mov eax, name",
            "push eax",
            "call asmr::io::print",
            "mov eax, bang",
            "push eax",
            "call asmr::io::print",
            "xor eax, eax",
        ],
        &["World\r\n"],
    );
    assert_eq!(run.output, "Hello, World!");
    assert_eq!(run.end, Ok(0));
    assert_eq!(run.ctx.stack, vec![RegisterData::Pointer(16), RegisterData::Pointer(0)]);
    assert_eq!(data(&run.ctx, RegisterName::Esp), RegisterData::Pointer(1));
    assert_eq!(data(&run.ctx, RegisterName::Ebp), RegisterData::Pointer(1));
}

#[test]
fn nested_calls_return_in_turn() {
    let run = run(
        &[
            "    call outer",
            "    jmp end",
            "outer:",
            "    inc eax",
            "    call inner",
            "    inc eax",
            "    ret",
            "inner:",
            "    add eax, 10",
            "    ret",
            "end:",
        ],
        &[],
    );
    assert_eq!(run.end, Ok(12));
    assert_eq!(run.ctx.stack, vec![RegisterData::Pointer(11), RegisterData::Pointer(0)]);
}

#[test]
fn data_is_laid_out_in_the_byte_order_asked_for() {
    let params = vec![
        Token::String("hé".to_string()),
        Token::Numeric(0x01020304),
        Token::Numeric(-2),
        Token::String(String::new()),
    ];
    let name = "data".to_string();

    let mut ctx = ExecutingContext::new();
    assert_eq!(define_data(&name, &params, &mut ctx, true), Ok(Action::Continue));
    assert_eq!(ctx.heap, vec![vec![b'h', 0xc3, 0xa9, 4, 3, 2, 1, 0xfe, 0xff, 0xff, 0xff]]);
    assert_eq!(ctx.symtab.get("data"), Some(&0));

    assert_eq!(define_data(&name, &params, &mut ctx, false), Ok(Action::Continue));
    assert_eq!(ctx.heap[1], vec![b'h', 0xc3, 0xa9, 1, 2, 3, 4, 0xff, 0xff, 0xff, 0xfe]);
    assert_eq!(ctx.symtab.get("data"), Some(&1));

    // The machine's own order is one of the two.
    assert_eq!(handle_variable(&name, &MemType::Db, &params, &mut ctx), Ok(Action::Continue));
    let little = u16::from_ne_bytes([1, 0]) == 1;
    assert_eq!(ctx.heap[2], ctx.heap[if little { 0 } else { 1 }]);
    assert_eq!(ctx.symtab.get("data"), Some(&2));

    ctx.ptr = 3;
    let wrong = vec![Token::Numeric(1), Token::Register(RegisterName::Eax)];
    let failure = Err(AsmrRuntimeError {
        line_number: 3,
        cause: "`db` takes parameters of type <...[String | Numeric]>".to_string(),
    });
    assert_eq!(define_data(&name, &wrong, &mut ctx, true), failure);
    assert_eq!(define_data(&name, &wrong, &mut ctx, false), failure);
    assert_eq!(ctx.heap.len(), 3);
    assert_eq!(define_data(&name, &vec![], &mut ctx, true), Ok(Action::Continue));
    assert_eq!(ctx.heap[3], Vec::<u8>::new());
}

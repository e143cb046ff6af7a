//! What each line of a program does to the machine, as mathematical
//! functions over [`MachineState`].

use vstd::prelude::*;
use vstd::utf8::encode_utf8;

use crate::machine::executing_context::MachineState;
use crate::machine::flags::Flag;
use crate::machine::register::{wrapping_quotient, RegisterData, RegisterName};
use crate::parser::instruction::Instruction;
use crate::parser::line::{LineView, MemType};
use crate::parser::text::decimal;
use crate::parser::token::TokenView;

verus! {

/// What the host has to do after a step, as a mathematical value.
pub enum ActionView {
    /// Nothing: take the next step.
    Continue,
    /// Write the text to standard output and flush it, then resume.
    Print(Seq<char>),
    /// Read one line from standard input, then resume with it.
    ReadLine,
    /// The program has ended with this exit code.
    Exit(u8),
}

/// What the host hands back after it has done what a step asked for, as a
/// mathematical value.
pub enum EventView {
    /// The text was written.
    Printed,
    /// The line that was read, with its line ending if it had one.
    Line(Seq<char>),
}

/// The machine after a line, an instruction or a part of one, and either what
/// the host has to do next or why execution failed.
pub struct Outcome {
    pub state: MachineState,
    pub result: Result<ActionView, Seq<char>>,
}

/// Success with nothing for the host to do.
pub open spec fn done(state: MachineState) -> Outcome {
    Outcome { state, result: Ok(ActionView::Continue) }
}

/// Failure with `cause`.
pub open spec fn fault(state: MachineState, cause: Seq<char>) -> Outcome {
    Outcome { state, result: Err(cause) }
}

/// The message for operands that do not have the shape the opcode expects.
pub open spec fn shape(instruction: Instruction) -> Seq<char> {
    match instruction {
        Instruction::Nop => "`nop` takes no parameters"@,
        Instruction::Push => "`push` takes parameters of type <...Register>"@,
        Instruction::Pop => "`pop` takes one parameter of type <Register>"@,
        Instruction::Mov =>
            "`mov` takes parameters of type <Register, [Register | Identifier | Numeric]>"@,
        Instruction::Xchg => "`xchg` takes parameters of type <Register, Register>"@,
        Instruction::Add => "`add` takes parameters of type <Register, [Register | Numeric]>"@,
        Instruction::Sub => "`sub` takes parameters of type <Register, [Register | Numeric]>"@,
        Instruction::Mul => "`mul` takes parameters of type <Register, [Register | Numeric]>"@,
        Instruction::Div => "`div` takes parameters of type <Register, [Register | Numeric]>"@,
        Instruction::Inc => "`inc` takes one parameter of type <Register>"@,
        Instruction::Dec => "`dec` takes one parameter of type <Register>"@,
        Instruction::Shl => "`shl` takes parameters of type <Register, Numeric>"@,
        Instruction::Shr => "`shr` takes parameters of type <Register, Numeric>"@,
        Instruction::Cmp => "`cmp` takes parameters of type <Register, [Register | Numeric]>"@,
        Instruction::And => "`and` takes parameters of type <Register, [Register | Numeric]>"@,
        Instruction::Or => "`or` takes parameters of type <Register, [Register | Numeric]>"@,
        Instruction::Not => "`not` takes one parameter of type <Register>"@,
        Instruction::Xor => "`xor` takes parameters of type <Register, [Register | Numeric]>"@,
        Instruction::Test => "`test` takes parameters of type <Register, [Register | Numeric]>"@,
        Instruction::Jmp => "`jmp` takes one parameter of type <Identifier>"@,
        Instruction::Jz => "`jz` takes one parameter of type <Identifier>"@,
        Instruction::Jnz => "`jnz` takes one parameter of type <Identifier>"@,
        Instruction::Jg => "`jg` takes one parameter of type <Identifier>"@,
        Instruction::Jl => "`jl` takes one parameter of type <Identifier>"@,
        Instruction::Jge => "`jge` takes one parameter of type <Identifier>"@,
        Instruction::Jle => "`jle` takes one parameter of type <Identifier>"@,
        Instruction::Je => "`je` takes one parameter of type <Identifier>"@,
        Instruction::Jne => "`jne` takes one parameter of type <Identifier>"@,
        Instruction::Call => "`call` takes one parameter of type <Identifier>"@,
        Instruction::Ret => "`ret` takes no parameters"@,
    }
}

/// The message for a shift by a negative count.
pub open spec fn negative_shift(instruction: Instruction) -> Seq<char> {
    if instruction == Instruction::Shl {
        "`shl` requires the parameter <Numeric> to be greater than or equal to 0"@
    } else {
        "`shr` requires the parameter <Numeric> to be greater than or equal to 0"@
    }
}

/// The message for a division by zero.
pub open spec fn division_by_zero() -> Seq<char> {
    "`div` requires the divisor to be different from 0"@
}

/// The message for a `mov` of a variable that is not defined.
pub open spec fn unknown_identifier(name: Seq<char>) -> Seq<char> {
    "unknown identifier `"@ + name + "`"@
}

/// The message for a jump to a label that there is not.
pub open spec fn no_address(name: Seq<char>) -> Seq<char> {
    "no address associated with identifier `"@ + name + "`"@
}

/// The message for a call of a built-in that there is not.
pub open spec fn no_function(name: Seq<char>) -> Seq<char> {
    "no function found: `"@ + name + "`"@
}

/// The message for `asmr::io::readln` with a value as its parameter.
pub open spec fn expected_pointer() -> Seq<char> {
    "expected pointer but found value"@
}

/// The message for a `pop` while `esp` is not the index of a stack cell.
pub open spec fn stack_fault() -> Seq<char> {
    "stack pointer does not address a stack cell"@
}

/// The message for a parameter that would lie outside the stack.
pub open spec fn parameter_fault() -> Seq<char> {
    "parameter does not address a stack cell"@
}

/// The message for a pointer that is not the index of a heap buffer.
pub open spec fn heap_fault() -> Seq<char> {
    "pointer does not address a heap buffer"@
}

/// The message for a definition when the heap has as many buffers as a
/// pointer can tell apart.
pub open spec fn heap_full() -> Seq<char> {
    "heap cannot hold another buffer"@
}

/// The message for `db` with an operand that is neither text nor number.
pub open spec fn db_shape() -> Seq<char> {
    "`db` takes parameters of type <...[String | Numeric]>"@
}

/// The message for `resb` with operands other than one number.
pub open spec fn resb_shape() -> Seq<char> {
    "`resb` takes one parameter of type <Numeric>"@
}

/// The message for `resb` with a size that is not above 0.
pub open spec fn resb_size() -> Seq<char> {
    "`resb` requires the parameter <Numeric> to be greater than 0"@
}

/// The cell moved back by `delta`, wrapping, with its tag kept.
pub open spec fn retreat(data: RegisterData, delta: i32) -> RegisterData {
    data.with_raw(data.raw().wrapping_sub(delta))
}

/// The integer that the second operand of an arithmetic or logic
/// instruction stands for: what a register holds, or a literal.
pub open spec fn operand(state: MachineState, token: TokenView) -> Option<i32> {
    match token {
        TokenView::Register(name) => Some(state.raw(name)),
        TokenView::Numeric(number) => Some(number),
        _ => None,
    }
}

/// Whether the operands are a register and then a register or a literal.
pub open spec fn is_binary(params: Seq<TokenView>) -> bool {
    &&& params.len() == 2
    &&& params[0] is Register
    &&& (params[1] is Register || params[1] is Numeric)
}

/// Whether the operands are one register.
pub open spec fn is_unary(params: Seq<TokenView>) -> bool {
    params.len() == 1 && params[0] is Register
}

/// Whether the operands are one identifier.
pub open spec fn is_target(params: Seq<TokenView>) -> bool {
    params.len() == 1 && params[0] is Identifier
}

// Stack

/// `push` of one register: a copy of its cell is appended to the stack and
/// `esp` moves up by one.
pub open spec fn push_register(state: MachineState, name: RegisterName) -> MachineState {
    MachineState {
        stack: state.stack.push(state.registers[name]),
        registers: state.registers.insert(
            RegisterName::Esp,
            state.registers[RegisterName::Esp].offset(1),
        ),
        ..state
    }
}

/// Whether every operand is a register.
pub open spec fn all_registers(params: Seq<TokenView>) -> bool {
    forall|i: int| 0 <= i < params.len() ==> (#[trigger] params[i]) is Register
}

/// `push` of each register of `params`, from the first to the last.
pub open spec fn push_all(state: MachineState, params: Seq<TokenView>) -> MachineState
    decreases params.len(),
{
    if params.len() == 0 {
        state
    } else {
        push_register(push_all(state, params.drop_last()), params.last()->Register_0)
    }
}

/// `push`: one register or more, each pushed in turn.
pub open spec fn push_outcome(state: MachineState, params: Seq<TokenView>) -> Outcome {
    if params.len() > 0 && all_registers(params) {
        done(push_all(state, params))
    } else {
        fault(state, shape(Instruction::Push))
    }
}

/// `pop` into one register: the cell at index `esp` leaves the stack, `esp`
/// moves down by one, and the register takes the cell.
pub open spec fn pop_register(state: MachineState, name: RegisterName) -> Outcome {
    let at = state.raw(RegisterName::Esp) as int;
    if 0 <= at < state.stack.len() {
        done(
            MachineState {
                stack: state.stack.remove(at),
                registers: state.registers.insert(
                    RegisterName::Esp,
                    retreat(state.registers[RegisterName::Esp], 1),
                ).insert(name, state.stack[at]),
                ..state
            },
        )
    } else {
        fault(state, stack_fault())
    }
}

/// `pop`: one register, which takes the cell at `esp`.
pub open spec fn pop_outcome(state: MachineState, params: Seq<TokenView>) -> Outcome {
    if is_unary(params) {
        pop_register(state, params[0]->Register_0)
    } else {
        fault(state, shape(Instruction::Pop))
    }
}

// Move

/// `mov`: a register takes a literal as a value, the heap index of a
/// variable as a pointer, or a copy of what another register holds.
pub open spec fn mov_outcome(state: MachineState, params: Seq<TokenView>) -> Outcome {
    if params.len() == 2 && params[0] is Register {
        let dest = params[0]->Register_0;
        match params[1] {
            TokenView::Numeric(number) => done(
                state.with_register(dest, RegisterData::Value(number)),
            ),
            TokenView::Identifier(name) => if state.symtab.contains_key(name) {
                done(state.with_register(dest, RegisterData::Pointer(state.symtab[name])))
            } else {
                fault(state, unknown_identifier(name))
            },
            TokenView::Register(source) => done(
                state.with_register(dest, state.registers[source]),
            ),
            TokenView::String(_) => fault(state, shape(Instruction::Mov)),
        }
    } else {
        fault(state, shape(Instruction::Mov))
    }
}

/// `xchg`: two registers swap what they hold.
pub open spec fn xchg_outcome(state: MachineState, params: Seq<TokenView>) -> Outcome {
    if params.len() == 2 && params[0] is Register && params[1] is Register {
        let left = params[0]->Register_0;
        let right = params[1]->Register_0;
        done(
            MachineState {
                registers: state.registers.insert(left, state.registers[right]).insert(
                    right,
                    state.registers[left],
                ),
                ..state
            },
        )
    } else {
        fault(state, shape(Instruction::Xchg))
    }
}

// Arithmetic and logic

/// Whether `instruction` combines a register with a register or a literal
/// and stores the result in the first.
pub open spec fn is_calculation(instruction: Instruction) -> bool {
    matches!(
        instruction,
        Instruction::Add | Instruction::Sub | Instruction::Mul | Instruction::Div
            | Instruction::And | Instruction::Or | Instruction::Xor
    )
}

/// What a calculation makes of two integers. Sums, differences and products
/// wrap; a quotient rounds towards zero.
pub open spec fn calculate(instruction: Instruction, left: i32, right: i32) -> i32 {
    match instruction {
        Instruction::Add => left.wrapping_add(right),
        Instruction::Sub => left.wrapping_sub(right),
        Instruction::Mul => left.wrapping_mul(right),
        Instruction::Div => wrapping_quotient(left, right),
        Instruction::And => left & right,
        Instruction::Or => left | right,
        _ => left ^ right,
    }
}

/// `add`, `sub`, `mul`, `div`, `and`, `or` and `xor`: a register is
/// combined with a register or a literal, and keeps its tag. A division by
/// zero is refused.
pub open spec fn calculation_outcome(
    instruction: Instruction,
    state: MachineState,
    params: Seq<TokenView>,
) -> Outcome {
    if is_binary(params) {
        let dest = params[0]->Register_0;
        let right = operand(state, params[1])->Some_0;
        if instruction == Instruction::Div && right == 0 {
            fault(state, division_by_zero())
        } else {
            done(
                state.with_register(
                    dest,
                    state.registers[dest].with_raw(calculate(instruction, state.raw(dest), right)),
                ),
            )
        }
    } else {
        fault(state, shape(instruction))
    }
}

/// `inc`, `dec` and `not`: one register is rewritten, its tag kept.
pub open spec fn unary_outcome(
    instruction: Instruction,
    state: MachineState,
    params: Seq<TokenView>,
) -> Outcome {
    if is_unary(params) {
        let dest = params[0]->Register_0;
        let old = state.raw(dest);
        let new = if instruction == Instruction::Inc {
            old.wrapping_add(1)
        } else if instruction == Instruction::Dec {
            old.wrapping_sub(1)
        } else {
            !old
        };
        done(state.with_register(dest, state.registers[dest].with_raw(new)))
    } else {
        fault(state, shape(instruction))
    }
}

/// `shl` and `shr`: a register is shifted by a literal count, taken modulo
/// 32; a negative count is refused. `shr` keeps the sign.
pub open spec fn shift_outcome(
    instruction: Instruction,
    state: MachineState,
    params: Seq<TokenView>,
) -> Outcome {
    if params.len() == 2 && params[0] is Register && params[1] is Numeric {
        let dest = params[0]->Register_0;
        let count = params[1]->Numeric_0;
        if count < 0 {
            fault(state, negative_shift(instruction))
        } else {
            let old = state.raw(dest);
            let new = if instruction == Instruction::Shl {
                old.wrapping_shl(count as u32)
            } else {
                old.wrapping_shr(count as u32)
            };
            done(state.with_register(dest, state.registers[dest].with_raw(new)))
        }
    } else {
        fault(state, shape(instruction))
    }
}

// Comparisons

/// `flags` with `flag` raised where `raised` holds and cleared where not.
pub open spec fn with_flag(flags: Set<Flag>, flag: Flag, raised: bool) -> Set<Flag> {
    if raised {
        flags.insert(flag)
    } else {
        flags.remove(flag)
    }
}

/// The flags after `cmp`: `ZF` tells whether the two are equal, `CF` whether
/// the left is less than the right. `SF` and `OF` stay as they were.
pub open spec fn compared(flags: Set<Flag>, left: i32, right: i32) -> Set<Flag> {
    with_flag(with_flag(flags, Flag::ZF, left == right), Flag::CF, left < right)
}

/// The flags after `test`: `CF` is cleared, `ZF` tells whether the
/// conjunction is zero and `SF` whether its highest bit is set. `OF` stays
/// as it was.
pub open spec fn tested(flags: Set<Flag>, left: i32, right: i32) -> Set<Flag> {
    let both = left & right;
    with_flag(with_flag(flags.remove(Flag::CF), Flag::SF, both < 0), Flag::ZF, both == 0)
}

/// `cmp` and `test`: the flags are set from a register and a register or a
/// literal; nothing else changes.
pub open spec fn flags_outcome(
    instruction: Instruction,
    state: MachineState,
    params: Seq<TokenView>,
) -> Outcome {
    if is_binary(params) {
        let left = state.raw(params[0]->Register_0);
        let right = operand(state, params[1])->Some_0;
        let flags = if instruction == Instruction::Cmp {
            compared(state.flags, left, right)
        } else {
            tested(state.flags, left, right)
        };
        done(MachineState { flags, ..state })
    } else {
        fault(state, shape(instruction))
    }
}

// Jumps

/// Whether `instruction` is a jump.
pub open spec fn is_jump(instruction: Instruction) -> bool {
    matches!(
        instruction,
        Instruction::Jmp | Instruction::Jz | Instruction::Jnz | Instruction::Jg | Instruction::Jl
            | Instruction::Jge | Instruction::Jle | Instruction::Je | Instruction::Jne
    )
}

/// Whether a jump is taken under `flags`.
pub open spec fn jump_taken(instruction: Instruction, flags: Set<Flag>) -> bool {
    let zero = flags.contains(Flag::ZF);
    let sign = flags.contains(Flag::SF);
    let overflow = flags.contains(Flag::OF);
    match instruction {
        Instruction::Jz | Instruction::Je => zero,
        Instruction::Jnz | Instruction::Jne => !zero,
        Instruction::Jg => !zero && sign == overflow,
        Instruction::Jge => sign == overflow,
        Instruction::Jl => sign != overflow,
        Instruction::Jle => zero || sign != overflow,
        _ => true,
    }
}

/// The state with the line of label `name` as the line to execute next;
/// failure where there is no such label.
pub open spec fn go_to(state: MachineState, name: Seq<char>) -> Outcome {
    if state.labels.contains_key(name) {
        done(MachineState { next: state.labels[name], ..state })
    } else {
        fault(state, no_address(name))
    }
}

/// A jump: where it is taken, execution goes on at its label; where it is
/// not, nothing happens, whether there is such a label or not.
pub open spec fn jump_outcome(
    instruction: Instruction,
    state: MachineState,
    params: Seq<TokenView>,
) -> Outcome {
    if is_target(params) {
        if jump_taken(instruction, state.flags) {
            go_to(state, params[0]->Identifier_0)
        } else {
            done(state)
        }
    } else {
        fault(state, shape(instruction))
    }
}

// Functions

/// Whether `name` is that of a built-in function.
pub open spec fn is_builtin_name(name: Seq<char>) -> bool {
    "asmr::"@.is_prefix_of(name)
}

/// The state with a new stack frame: the caller's `eip` and `ebp` are
/// pushed, and `ebp` takes what `esp` holds.
pub open spec fn enter_frame(state: MachineState) -> MachineState {
    let saved = push_register(push_register(state, RegisterName::Eip), RegisterName::Ebp);
    saved.with_register(RegisterName::Ebp, saved.registers[RegisterName::Esp])
}

/// The `n`th parameter of the built-in that is being called, counted from
/// 1: the stack cell at index `ebp - 1 - n`, if there is one.
pub open spec fn parameter(state: MachineState, n: int) -> Option<RegisterData> {
    let at = state.raw(RegisterName::Ebp) - 1 - n;
    if 0 <= at < state.stack.len() {
        Some(state.stack[at])
    } else {
        None
    }
}

/// Whether `n` parameters lie directly under the frame.
pub open spec fn parameters_present(state: MachineState, n: int) -> bool {
    let frame = state.raw(RegisterName::Ebp) - 1;
    0 <= n <= frame <= state.stack.len()
}

/// The state without the `n` parameters under the frame: the cells leave the
/// stack and `ebp` and `esp` move down by `n`. The frame itself stays.
pub open spec fn without_parameters(state: MachineState, n: i32) -> MachineState {
    let frame = state.raw(RegisterName::Ebp) - 1;
    MachineState {
        stack: state.stack.subrange(0, frame - n) + state.stack.subrange(
            frame,
            state.stack.len() as int,
        ),
        registers: state.registers.insert(
            RegisterName::Ebp,
            retreat(state.registers[RegisterName::Ebp], n),
        ).insert(RegisterName::Esp, retreat(state.registers[RegisterName::Esp], n)),
        ..state
    }
}

/// The bytes of a buffer read as characters, one for each byte.
pub open spec fn bytes_as_text(bytes: Seq<u8>) -> Seq<char> {
    bytes.map_values(|b: u8| b as char)
}

/// What `asmr::io::print` asks the host to write: a value in decimal, or
/// the buffer under a pointer as text.
pub open spec fn print_request(state: MachineState) -> Outcome {
    match parameter(state, 1) {
        None => fault(state, parameter_fault()),
        Some(RegisterData::Value(number)) => Outcome {
            state,
            result: Ok(ActionView::Print(decimal(number as int))),
        },
        Some(RegisterData::Pointer(p)) => if 0 <= p < state.heap.len() {
            Outcome { state, result: Ok(ActionView::Print(bytes_as_text(state.heap[p as int]))) }
        } else {
            fault(state, heap_fault())
        },
    }
}

/// `asmr::io::readln` asks the host for a line if its parameter is a
/// pointer.
pub open spec fn readln_request(state: MachineState) -> Outcome {
    match parameter(state, 1) {
        None => fault(state, parameter_fault()),
        Some(RegisterData::Value(_)) => fault(state, expected_pointer()),
        Some(RegisterData::Pointer(_)) => Outcome { state, result: Ok(ActionView::ReadLine) },
    }
}

/// What the built-in `name` asks of the host.
pub open spec fn builtin_request(state: MachineState, name: Seq<char>) -> Outcome {
    if name == "asmr::io::print"@ {
        print_request(state)
    } else if name == "asmr::io::readln"@ {
        readln_request(state)
    } else {
        fault(state, no_function(name))
    }
}

/// `call`: a frame is entered; a built-in then asks the host for its
/// input or output, and any other name is jumped to.
pub open spec fn call_outcome(state: MachineState, params: Seq<TokenView>) -> Outcome {
    if is_target(params) {
        let name = params[0]->Identifier_0;
        if is_builtin_name(name) {
            builtin_request(enter_frame(state), name)
        } else {
            go_to(enter_frame(state), name)
        }
    } else {
        fault(state, shape(Instruction::Call))
    }
}

/// Leaving a frame: `esp` takes what `ebp` holds, `ebp` and `eip` are
/// popped, and execution goes on after the line that `eip` then names.
pub open spec fn leave_frame(state: MachineState) -> Outcome {
    let unwound = state.with_register(RegisterName::Esp, state.registers[RegisterName::Ebp]);
    let base = pop_register(unwound, RegisterName::Ebp);
    if base.result is Err {
        base
    } else {
        let address = pop_register(base.state, RegisterName::Eip);
        if address.result is Err {
            address
        } else {
            done(
                MachineState {
                    next: (address.state.raw(RegisterName::Eip) as usize).wrapping_add(1),
                    ..address.state
                },
            )
        }
    }
}

/// `ret`: the frame is left.
pub open spec fn ret_outcome(state: MachineState, params: Seq<TokenView>) -> Outcome {
    if params.len() == 0 {
        leave_frame(state)
    } else {
        fault(state, shape(Instruction::Ret))
    }
}

/// What an instruction does.
pub open spec fn instruction_outcome(
    instruction: Instruction,
    state: MachineState,
    params: Seq<TokenView>,
) -> Outcome {
    match instruction {
        Instruction::Nop => if params.len() == 0 {
            done(state)
        } else {
            fault(state, shape(Instruction::Nop))
        },
        Instruction::Push => push_outcome(state, params),
        Instruction::Pop => pop_outcome(state, params),
        Instruction::Mov => mov_outcome(state, params),
        Instruction::Xchg => xchg_outcome(state, params),
        Instruction::Add | Instruction::Sub | Instruction::Mul | Instruction::Div
        | Instruction::And | Instruction::Or | Instruction::Xor => calculation_outcome(
            instruction,
            state,
            params,
        ),
        Instruction::Inc | Instruction::Dec | Instruction::Not => unary_outcome(
            instruction,
            state,
            params,
        ),
        Instruction::Shl | Instruction::Shr => shift_outcome(instruction, state, params),
        Instruction::Cmp | Instruction::Test => flags_outcome(instruction, state, params),
        Instruction::Jmp | Instruction::Jz | Instruction::Jnz | Instruction::Jg
        | Instruction::Jl | Instruction::Jge | Instruction::Jle | Instruction::Je
        | Instruction::Jne => jump_outcome(instruction, state, params),
        Instruction::Call => call_outcome(state, params),
        Instruction::Ret => ret_outcome(state, params),
    }
}

// Variables

/// The four bytes of `number`, the lowest first.
pub open spec fn little_endian(number: i32) -> Seq<u8> {
    seq![
        (number & 0xff) as u8,
        ((number >> 8) & 0xff) as u8,
        ((number >> 16) & 0xff) as u8,
        ((number >> 24) & 0xff) as u8,
    ]
}

/// The four bytes of `number` as the machine that runs the interpreter
/// keeps them: the lowest first where it is little-endian, the highest
/// first where it is not.
pub open spec fn native_endian(number: i32, little: bool) -> Seq<u8> {
    if little {
        little_endian(number)
    } else {
        little_endian(number).reverse()
    }
}

/// Whether `db` accepts the operands: texts and numbers only.
pub open spec fn is_data(params: Seq<TokenView>) -> bool {
    forall|i: int|
        0 <= i < params.len() ==> ((#[trigger] params[i]) is String || params[i] is Numeric)
}

/// The bytes that `db` lays out: each text in UTF-8 and each number in
/// native byte order, one after the other.
pub open spec fn data_bytes(params: Seq<TokenView>, little: bool) -> Seq<u8>
    decreases params.len(),
{
    if params.len() == 0 {
        Seq::empty()
    } else {
        data_bytes(params.drop_last(), little) + match params.last() {
            TokenView::String(text) => encode_utf8(text),
            TokenView::Numeric(number) => native_endian(number, little),
            _ => Seq::empty(),
        }
    }
}

/// A new buffer at the end of the heap, known as `identifier`.
pub open spec fn define(state: MachineState, identifier: Seq<char>, bytes: Seq<u8>) -> Outcome {
    if state.heap.len() <= i32::MAX {
        done(
            MachineState {
                heap: state.heap.push(bytes),
                symtab: state.symtab.insert(identifier, state.heap.len() as i32),
                ..state
            },
        )
    } else {
        fault(state, heap_full())
    }
}

/// What a variable definition does, on a machine of the given byte order.
pub open spec fn variable_outcome(
    state: MachineState,
    identifier: Seq<char>,
    mem_type: MemType,
    params: Seq<TokenView>,
    little: bool,
) -> Outcome {
    match mem_type {
        MemType::Db => if is_data(params) {
            define(state, identifier, data_bytes(params, little))
        } else {
            fault(state, db_shape())
        },
        MemType::Resb => if params.len() == 1 && params[0] is Numeric {
            if params[0]->Numeric_0 > 0 {
                define(state, identifier, Seq::empty())
            } else {
                fault(state, resb_size())
            }
        } else {
            fault(state, resb_shape())
        },
    }
}

// The dispatch loop

/// What a line does. Labels and blank lines do nothing.
pub open spec fn line_outcome(state: MachineState, line: LineView, little: bool) -> Outcome {
    match line {
        LineView::Instruction { instruction, params } => instruction_outcome(
            instruction,
            state,
            params,
        ),
        LineView::Variable { identifier, mem_type, params } => variable_outcome(
            state,
            identifier,
            mem_type,
            params,
            little,
        ),
        _ => done(state),
    }
}

/// The state moved on to the next line: the line to execute next becomes
/// the current one, `eip` points at it, and the line after it is next.
pub open spec fn advance(state: MachineState) -> MachineState {
    MachineState {
        ptr: state.next,
        next: state.next.wrapping_add(1),
        registers: state.registers.insert(
            RegisterName::Eip,
            RegisterData::Pointer(state.next as i32),
        ),
        ..state
    }
}

/// The exit code of a program: the low 8 bits of `eax`.
pub open spec fn exit_code(state: MachineState) -> u8 {
    (state.raw(RegisterName::Eax) & 0xff) as u8
}

/// One turn of the dispatch loop. Past the last line the program exits.
/// Otherwise the current line is executed; unless it asks the host for
/// input or output, or fails, the machine then moves on to the next line.
pub open spec fn step_outcome(state: MachineState, program: Seq<LineView>, little: bool) -> Outcome {
    if state.ptr >= program.len() {
        Outcome { state, result: Ok(ActionView::Exit(exit_code(state))) }
    } else {
        let executed = line_outcome(state, program[state.ptr as int], little);
        if executed.result == Ok::<ActionView, Seq<char>>(ActionView::Continue) {
            done(advance(executed.state))
        } else {
            executed
        }
    }
}

/// `line` without the line ending `\n` or `\r\n` at its end, if it has one.
pub open spec fn without_line_ending(line: Seq<char>) -> Seq<char> {
    if line.len() > 0 && line.last() == '\n' {
        let rest = line.drop_last();
        if rest.len() > 0 && rest.last() == '\r' {
            rest.drop_last()
        } else {
            rest
        }
    } else {
        line
    }
}

/// The end of a call of `asmr::io::print`: its parameter is cleared.
pub open spec fn print_completion(state: MachineState) -> Outcome {
    if parameters_present(state, 1) {
        done(without_parameters(state, 1))
    } else {
        fault(state, parameter_fault())
    }
}

/// The end of a call of `asmr::io::readln`: the buffer under its parameter
/// is replaced by the line, without its line ending, in UTF-8, and the
/// parameter is cleared.
pub open spec fn readln_completion(state: MachineState, line: Seq<char>) -> Outcome {
    match parameter(state, 1) {
        None => fault(state, parameter_fault()),
        Some(RegisterData::Value(_)) => fault(state, expected_pointer()),
        Some(RegisterData::Pointer(p)) => if 0 <= p < state.heap.len() {
            let stored = MachineState {
                heap: state.heap.update(p as int, encode_utf8(without_line_ending(line))),
                ..state
            };
            if parameters_present(stored, 1) {
                done(without_parameters(stored, 1))
            } else {
                fault(stored, parameter_fault())
            }
        } else {
            fault(state, heap_fault())
        },
    }
}

/// What a built-in does once the host has done its part.
pub open spec fn builtin_completion(state: MachineState, event: EventView) -> Outcome {
    match event {
        EventView::Printed => print_completion(state),
        EventView::Line(line) => readln_completion(state, line),
    }
}

/// The rest of a call of a built-in, once the host has done its part: the
/// built-in completes, the frame is left, and the machine moves on to the
/// next line.
pub open spec fn resume_outcome(state: MachineState, event: EventView) -> Outcome {
    let completed = builtin_completion(state, event);
    if completed.result is Err {
        completed
    } else {
        let left = leave_frame(completed.state);
        if left.result is Err {
            left
        } else {
            done(advance(left.state))
        }
    }
}

/// The line of each label of `program`. Of two labels of one name the later
/// counts.
pub open spec fn label_table(program: Seq<LineView>) -> Map<Seq<char>, usize>
    decreases program.len(),
{
    if program.len() == 0 {
        Map::empty()
    } else {
        let earlier = label_table(program.drop_last());
        match program.last() {
            LineView::Label(name) => earlier.insert(name, (program.len() - 1) as usize),
            _ => earlier,
        }
    }
}

/// The machine that is ready to run `program`: on the stack lie the return
/// address of the whole program, which is the line after its last, and a
/// first saved base pointer; `esp` is the index of the latter.
pub open spec fn loaded(program: Seq<LineView>) -> MachineState {
    let fresh = MachineState::fresh();
    MachineState {
        stack: seq![RegisterData::Pointer(program.len() as i32), RegisterData::Pointer(0)],
        registers: fresh.registers.insert(
            RegisterName::Esp,
            fresh.registers[RegisterName::Esp].offset(1),
        ),
        labels: label_table(program),
        ..fresh
    }
}

} // verus!

//! The execution engine: one step of the dispatch loop at a time.
//!
//! [`start`] loads a program, [`step`] executes the current line, and
//! [`resume`] completes a call of a built-in once the host has done the
//! reading or writing that the call asked for. What each of them does is
//! stated by the functions of [`semantics`].

pub mod action;
pub mod error;
pub mod laws;
pub mod semantics;

use vstd::prelude::*;

use crate::interpreter::action::{agrees, Action, Event};
use crate::interpreter::error::AsmrRuntimeError;
use crate::machine::builtins::{call_builtin_fn, complete_builtin_fn};
use crate::machine::executing_context::{ExecutingContext, MachineState};
use crate::machine::flags::Flag;
use crate::machine::register::{RegisterData, RegisterName};
use crate::parser::instruction::Instruction;
use crate::parser::line::{Line, LineView, MemType};
use crate::parser::text::{begins_with, to_chars};
use crate::parser::token::{Token, TokenView};

verus! {

/// The message for operands that do not have the shape the opcode expects.
fn shape_text(instruction: Instruction) -> (text: &'static str)
    ensures
        text@ == semantics::shape(instruction),
{
    match instruction {
        Instruction::Nop => "`nop` takes no parameters",
        Instruction::Push => "`push` takes parameters of type <...Register>",
        Instruction::Pop => "`pop` takes one parameter of type <Register>",
        Instruction::Mov => "`mov` takes parameters of type <Register, [Register | Identifier | Numeric]>",
        Instruction::Xchg => "`xchg` takes parameters of type <Register, Register>",
        Instruction::Add => "`add` takes parameters of type <Register, [Register | Numeric]>",
        Instruction::Sub => "`sub` takes parameters of type <Register, [Register | Numeric]>",
        Instruction::Mul => "`mul` takes parameters of type <Register, [Register | Numeric]>",
        Instruction::Div => "`div` takes parameters of type <Register, [Register | Numeric]>",
        Instruction::Inc => "`inc` takes one parameter of type <Register>",
        Instruction::Dec => "`dec` takes one parameter of type <Register>",
        Instruction::Shl => "`shl` takes parameters of type <Register, Numeric>",
        Instruction::Shr => "`shr` takes parameters of type <Register, Numeric>",
        Instruction::Cmp => "`cmp` takes parameters of type <Register, [Register | Numeric]>",
        Instruction::And => "`and` takes parameters of type <Register, [Register | Numeric]>",
        Instruction::Or => "`or` takes parameters of type <Register, [Register | Numeric]>",
        Instruction::Not => "`not` takes one parameter of type <Register>",
        Instruction::Xor => "`xor` takes parameters of type <Register, [Register | Numeric]>",
        Instruction::Test => "`test` takes parameters of type <Register, [Register | Numeric]>",
        Instruction::Jmp => "`jmp` takes one parameter of type <Identifier>",
        Instruction::Jz => "`jz` takes one parameter of type <Identifier>",
        Instruction::Jnz => "`jnz` takes one parameter of type <Identifier>",
        Instruction::Jg => "`jg` takes one parameter of type <Identifier>",
        Instruction::Jl => "`jl` takes one parameter of type <Identifier>",
        Instruction::Jge => "`jge` takes one parameter of type <Identifier>",
        Instruction::Jle => "`jle` takes one parameter of type <Identifier>",
        Instruction::Je => "`je` takes one parameter of type <Identifier>",
        Instruction::Jne => "`jne` takes one parameter of type <Identifier>",
        Instruction::Call => "`call` takes one parameter of type <Identifier>",
        Instruction::Ret => "`ret` takes no parameters",
    }
}

fn shape_error(instruction: Instruction, ctx: &ExecutingContext) -> (result: Result<
    Action,
    AsmrRuntimeError,
>)
    ensures
        agrees(result, ctx@, semantics::fault(ctx@, semantics::shape(instruction)), ctx.ptr),
{
    Err(AsmrRuntimeError::from(ctx.ptr, shape_text(instruction)))
}

/// A message made of `before`, `name` and a closing backquote.
fn quoting(before: &str, name: &String) -> (cause: String)
    ensures
        cause@ == before@ + name@ + "`"@,
{
    let mut cause = String::from_str(before);
    cause.append(name.as_str());
    cause.append("`");
    cause
}

/// The integer that a register or a literal stands for.
fn read_operand(token: &Token, ctx: &ExecutingContext) -> (value: Option<i32>)
    ensures
        value == semantics::operand(ctx@, token@),
{
    match token {
        Token::Register(name) => Some(ctx.registers.get(*name).get_raw()),
        Token::Numeric(number) => Some(*number),
        _ => None,
    }
}

// Stack

fn push_register(name: RegisterName, ctx: &mut ExecutingContext)
    ensures
        final(ctx)@ == semantics::push_register(old(ctx)@, name),
{
    let data = ctx.registers.get(name).data;
    ctx.stack.push(data);
    let mut esp = ctx.registers.get(RegisterName::Esp);
    esp.add_assign(1);
    ctx.registers.set(RegisterName::Esp, esp.data);
}

fn push(params: &Vec<Token>, ctx: &mut ExecutingContext) -> (result: Result<
    Action,
    AsmrRuntimeError,
>)
    ensures
        agrees(
            result,
            final(ctx)@,
            semantics::push_outcome(old(ctx)@, params.deep_view()),
            old(ctx).ptr,
        ),
{
    if params.len() == 0 {
        return shape_error(Instruction::Push, ctx);
    }
    let ghost operands = params.deep_view();
    let mut i: usize = 0;
    while i < params.len()
        invariant
            i <= params.len(),
            operands == params.deep_view(),
            forall|k: int| 0 <= k < i ==> (#[trigger] operands[k]) is Register,
            *ctx == *old(ctx),
        decreases params.len() - i,
    {
        match &params[i] {
            Token::Register(_) => {},
            _ => {
                assert(!(operands[i as int] is Register));
                return shape_error(Instruction::Push, ctx);
            },
        }
        i += 1;
    }
    let mut i: usize = 0;
    assert(operands.take(0) == Seq::<TokenView>::empty());
    while i < params.len()
        invariant
            i <= params.len(),
            operands == params.deep_view(),
            semantics::all_registers(operands),
            ctx@ == semantics::push_all(old(ctx)@, operands.take(i as int)),
            ctx.ptr == old(ctx).ptr,
        decreases params.len() - i,
    {
        assert(operands.take(i + 1).drop_last() == operands.take(i as int));
        assert(operands[i as int] is Register);
        match &params[i] {
            Token::Register(name) => push_register(*name, ctx),
            _ => {},
        }
        i += 1;
    }
    assert(operands.take(params.len() as int) == operands);
    Ok(Action::Continue)
}

fn pop_register(name: RegisterName, ctx: &mut ExecutingContext) -> (result: Result<
    Action,
    AsmrRuntimeError,
>)
    ensures
        agrees(result, final(ctx)@, semantics::pop_register(old(ctx)@, name), old(ctx).ptr),
{
    let mut esp = ctx.registers.get(RegisterName::Esp);
    let at = esp.get_raw();
    if at < 0 || at as usize >= ctx.stack.len() {
        return Err(AsmrRuntimeError::from(ctx.ptr, "stack pointer does not address a stack cell"));
    }
    let top = ctx.stack.remove(at as usize);
    esp.sub_assign(1);
    ctx.registers.set(RegisterName::Esp, esp.data);
    ctx.registers.set(name, top);
    Ok(Action::Continue)
}

fn pop(params: &Vec<Token>, ctx: &mut ExecutingContext) -> (result: Result<
    Action,
    AsmrRuntimeError,
>)
    ensures
        agrees(
            result,
            final(ctx)@,
            semantics::pop_outcome(old(ctx)@, params.deep_view()),
            old(ctx).ptr,
        ),
{
    if params.len() != 1 {
        return shape_error(Instruction::Pop, ctx);
    }
    match &params[0] {
        Token::Register(name) => pop_register(*name, ctx),
        _ => shape_error(Instruction::Pop, ctx),
    }
}

// Move

fn mov(params: &Vec<Token>, ctx: &mut ExecutingContext) -> (result: Result<
    Action,
    AsmrRuntimeError,
>)
    ensures
        agrees(
            result,
            final(ctx)@,
            semantics::mov_outcome(old(ctx)@, params.deep_view()),
            old(ctx).ptr,
        ),
{
    if params.len() != 2 {
        return shape_error(Instruction::Mov, ctx);
    }
    match &params[0] {
        Token::Register(dest) => {
            match &params[1] {
                Token::Numeric(number) => {
                    ctx.registers.set(*dest, RegisterData::Value(*number));
                    Ok(Action::Continue)
                },
                Token::Identifier(name) => {
                    match ctx.symtab.get(name.as_str()) {
                        Some(index) => {
                            let pointer = RegisterData::Pointer(*index);
                            ctx.registers.set(*dest, pointer);
                            Ok(Action::Continue)
                        },
                        None => Err(
                            AsmrRuntimeError {
                                line_number: ctx.ptr,
                                cause: quoting("unknown identifier `", name),
                            },
                        ),
                    }
                },
                Token::Register(source) => {
                    let data = ctx.registers.get(*source).data;
                    ctx.registers.set(*dest, data);
                    Ok(Action::Continue)
                },
                Token::String(_) => shape_error(Instruction::Mov, ctx),
            }
        },
        _ => shape_error(Instruction::Mov, ctx),
    }
}

fn xchg(params: &Vec<Token>, ctx: &mut ExecutingContext) -> (result: Result<
    Action,
    AsmrRuntimeError,
>)
    ensures
        agrees(
            result,
            final(ctx)@,
            semantics::xchg_outcome(old(ctx)@, params.deep_view()),
            old(ctx).ptr,
        ),
{
    if params.len() != 2 {
        return shape_error(Instruction::Xchg, ctx);
    }
    match (&params[0], &params[1]) {
        (Token::Register(left), Token::Register(right)) => {
            let held_left = ctx.registers.get(*left).data;
            let held_right = ctx.registers.get(*right).data;
            ctx.registers.set(*left, held_right);
            ctx.registers.set(*right, held_left);
            Ok(Action::Continue)
        },
        _ => shape_error(Instruction::Xchg, ctx),
    }
}

// Arithmetic and logic

/// The register and the integer that a calculation or a comparison works
/// on, where the operands have that shape.
fn binary_operands(params: &Vec<Token>, ctx: &ExecutingContext) -> (operands: Option<
    (RegisterName, i32),
>)
    ensures
        match operands {
            Some((dest, right)) => semantics::is_binary(params.deep_view())
                && params.deep_view()[0]->Register_0 == dest && semantics::operand(
                ctx@,
                params.deep_view()[1],
            ) == Some(right),
            None => !semantics::is_binary(params.deep_view()),
        },
{
    if params.len() != 2 {
        return None;
    }
    match &params[0] {
        Token::Register(dest) => {
            match read_operand(&params[1], ctx) {
                Some(right) => Some((*dest, right)),
                None => None,
            }
        },
        _ => None,
    }
}

/// The register that an instruction of one operand works on, where the
/// operands have that shape.
fn unary_operand(params: &Vec<Token>) -> (operand: Option<RegisterName>)
    ensures
        match operand {
            Some(dest) => semantics::is_unary(params.deep_view())
                && params.deep_view()[0]->Register_0 == dest,
            None => !semantics::is_unary(params.deep_view()),
        },
{
    if params.len() != 1 {
        return None;
    }
    match &params[0] {
        Token::Register(dest) => Some(*dest),
        _ => None,
    }
}

fn calculate(instruction: Instruction, params: &Vec<Token>, ctx: &mut ExecutingContext) -> (result:
    Result<Action, AsmrRuntimeError>)
    requires
        semantics::is_calculation(instruction),
    ensures
        agrees(
            result,
            final(ctx)@,
            semantics::calculation_outcome(instruction, old(ctx)@, params.deep_view()),
            old(ctx).ptr,
        ),
{
    match binary_operands(params, ctx) {
        None => shape_error(instruction, ctx),
        Some((dest, right)) => {
            let mut register = ctx.registers.get(dest);
            match instruction {
                Instruction::Add => register.add_assign(right),
                Instruction::Sub => register.sub_assign(right),
                Instruction::Mul => register.mul_assign(right),
                Instruction::Div => {
                    if right == 0 {
                        return Err(
                            AsmrRuntimeError::from(
                                ctx.ptr,
                                "`div` requires the divisor to be different from 0",
                            ),
                        );
                    }
                    register.div_assign(right)
                },
                Instruction::And => register.bitand_assign(right),
                Instruction::Or => register.bitor_assign(right),
                _ => register.bitxor_assign(right),
            }
            ctx.registers.set(dest, register.data);
            Ok(Action::Continue)
        },
    }
}

fn rewrite(instruction: Instruction, params: &Vec<Token>, ctx: &mut ExecutingContext) -> (result:
    Result<Action, AsmrRuntimeError>)
    requires
        instruction == Instruction::Inc || instruction == Instruction::Dec || instruction
            == Instruction::Not,
    ensures
        agrees(
            result,
            final(ctx)@,
            semantics::unary_outcome(instruction, old(ctx)@, params.deep_view()),
            old(ctx).ptr,
        ),
{
    match unary_operand(params) {
        None => shape_error(instruction, ctx),
        Some(dest) => {
            let mut register = ctx.registers.get(dest);
            match instruction {
                Instruction::Inc => register.add_assign(1),
                Instruction::Dec => register.sub_assign(1),
                _ => register.bitnot_assign_self(),
            }
            ctx.registers.set(dest, register.data);
            Ok(Action::Continue)
        },
    }
}

fn shift(instruction: Instruction, params: &Vec<Token>, ctx: &mut ExecutingContext) -> (result:
    Result<Action, AsmrRuntimeError>)
    requires
        instruction == Instruction::Shl || instruction == Instruction::Shr,
    ensures
        agrees(
            result,
            final(ctx)@,
            semantics::shift_outcome(instruction, old(ctx)@, params.deep_view()),
            old(ctx).ptr,
        ),
{
    if params.len() != 2 {
        return shape_error(instruction, ctx);
    }
    match (&params[0], &params[1]) {
        (Token::Register(dest), Token::Numeric(count)) => {
            if *count < 0 {
                let cause = match instruction {
                    Instruction::Shl =>
                        "`shl` requires the parameter <Numeric> to be greater than or equal to 0",
                    _ => "`shr` requires the parameter <Numeric> to be greater than or equal to 0",
                };
                return Err(AsmrRuntimeError::from(ctx.ptr, cause));
            }
            let mut register = ctx.registers.get(*dest);
            match instruction {
                Instruction::Shl => register.shl_assign(*count),
                _ => register.shr_assign(*count),
            }
            ctx.registers.set(*dest, register.data);
            Ok(Action::Continue)
        },
        _ => shape_error(instruction, ctx),
    }
}

// Comparisons

/// Raises `flag` where `raised` holds and clears it where not.
fn put_flag(flag: Flag, raised: bool, ctx: &mut ExecutingContext)
    ensures
        final(ctx)@ == (MachineState {
            flags: semantics::with_flag(old(ctx)@.flags, flag, raised),
            ..old(ctx)@
        }),
{
    if raised {
        ctx.flags.set(flag);
    } else {
        ctx.flags.unset(flag);
    }
}

fn compare(instruction: Instruction, params: &Vec<Token>, ctx: &mut ExecutingContext) -> (result:
    Result<Action, AsmrRuntimeError>)
    requires
        instruction == Instruction::Cmp || instruction == Instruction::Test,
    ensures
        agrees(
            result,
            final(ctx)@,
            semantics::flags_outcome(instruction, old(ctx)@, params.deep_view()),
            old(ctx).ptr,
        ),
{
    match binary_operands(params, ctx) {
        None => shape_error(instruction, ctx),
        Some((dest, right)) => {
            let left = ctx.registers.get(dest).get_raw();
            match instruction {
                Instruction::Cmp => {
                    put_flag(Flag::ZF, left == right, ctx);
                    put_flag(Flag::CF, left < right, ctx);
                },
                _ => {
                    let both = left & right;
                    put_flag(Flag::CF, false, ctx);
                    put_flag(Flag::SF, both < 0, ctx);
                    put_flag(Flag::ZF, both == 0, ctx);
                },
            }
            Ok(Action::Continue)
        },
    }
}

// Jumps

fn is_taken(instruction: Instruction, ctx: &ExecutingContext) -> (taken: bool)
    ensures
        taken == semantics::jump_taken(instruction, ctx@.flags),
{
    let zero = ctx.flags.get(Flag::ZF);
    let sign = ctx.flags.get(Flag::SF);
    let overflow = ctx.flags.get(Flag::OF);
    match instruction {
        Instruction::Jz | Instruction::Je => zero,
        Instruction::Jnz | Instruction::Jne => !zero,
        Instruction::Jg => !zero && sign == overflow,
        Instruction::Jge => sign == overflow,
        Instruction::Jl => sign != overflow,
        Instruction::Jle => zero || sign != overflow,
        _ => true,
    }
}

fn go_to(name: &String, ctx: &mut ExecutingContext) -> (result: Result<Action, AsmrRuntimeError>)
    ensures
        agrees(result, final(ctx)@, semantics::go_to(old(ctx)@, name@), old(ctx).ptr),
{
    match ctx.labels.get(name.as_str()) {
        Some(line) => {
            ctx.next = *line;
            Ok(Action::Continue)
        },
        None => Err(
            AsmrRuntimeError {
                line_number: ctx.ptr,
                cause: quoting("no address associated with identifier `", name),
            },
        ),
    }
}

fn jump(instruction: Instruction, params: &Vec<Token>, ctx: &mut ExecutingContext) -> (result:
    Result<Action, AsmrRuntimeError>)
    requires
        semantics::is_jump(instruction),
    ensures
        agrees(
            result,
            final(ctx)@,
            semantics::jump_outcome(instruction, old(ctx)@, params.deep_view()),
            old(ctx).ptr,
        ),
{
    if params.len() != 1 {
        return shape_error(instruction, ctx);
    }
    match &params[0] {
        Token::Identifier(name) => {
            if is_taken(instruction, ctx) {
                go_to(name, ctx)
            } else {
                Ok(Action::Continue)
            }
        },
        _ => shape_error(instruction, ctx),
    }
}

// Functions

fn enter_frame(ctx: &mut ExecutingContext)
    ensures
        final(ctx)@ == semantics::enter_frame(old(ctx)@),
{
    push_register(RegisterName::Eip, ctx);
    push_register(RegisterName::Ebp, ctx);
    let esp = ctx.registers.get(RegisterName::Esp).data;
    ctx.registers.set(RegisterName::Ebp, esp);
}

fn call(params: &Vec<Token>, ctx: &mut ExecutingContext) -> (result: Result<
    Action,
    AsmrRuntimeError,
>)
    ensures
        agrees(
            result,
            final(ctx)@,
            semantics::call_outcome(old(ctx)@, params.deep_view()),
            old(ctx).ptr,
        ),
{
    if params.len() != 1 {
        return shape_error(Instruction::Call, ctx);
    }
    match &params[0] {
        Token::Identifier(name) => {
            enter_frame(ctx);
            let chars = to_chars(name.as_str());
            if begins_with(&chars, "asmr::") {
                call_builtin_fn(name, ctx)
            } else {
                go_to(name, ctx)
            }
        },
        _ => shape_error(Instruction::Call, ctx),
    }
}

fn leave_frame(ctx: &mut ExecutingContext) -> (result: Result<Action, AsmrRuntimeError>)
    ensures
        agrees(result, final(ctx)@, semantics::leave_frame(old(ctx)@), old(ctx).ptr),
{
    let ebp = ctx.registers.get(RegisterName::Ebp).data;
    ctx.registers.set(RegisterName::Esp, ebp);
    match pop_register(RegisterName::Ebp, ctx) {
        Err(error) => {
            return Err(error);
        },
        Ok(_) => {},
    }
    match pop_register(RegisterName::Eip, ctx) {
        Err(error) => {
            return Err(error);
        },
        Ok(_) => {},
    }
    let address = ctx.registers.get(RegisterName::Eip).get_raw();
    ctx.next = (#[verifier::truncate]
    (address as usize)).wrapping_add(1);
    Ok(Action::Continue)
}

fn ret(params: &Vec<Token>, ctx: &mut ExecutingContext) -> (result: Result<
    Action,
    AsmrRuntimeError,
>)
    ensures
        agrees(
            result,
            final(ctx)@,
            semantics::ret_outcome(old(ctx)@, params.deep_view()),
            old(ctx).ptr,
        ),
{
    if params.len() != 0 {
        return shape_error(Instruction::Ret, ctx);
    }
    leave_frame(ctx)
}

/// Executes one instruction.
///
/// The operands are checked against the shape that the opcode expects
/// before anything changes. Where the instruction calls a built-in, the
/// result is the request to the host, and the call is completed by
/// [`resume`].
pub fn handle_instruction(
    instruction: &Instruction,
    params: &Vec<Token>,
    ctx: &mut ExecutingContext,
) -> (result: Result<Action, AsmrRuntimeError>)
    ensures
        agrees(
            result,
            final(ctx)@,
            semantics::instruction_outcome(*instruction, old(ctx)@, params.deep_view()),
            old(ctx).ptr,
        ),
{
    match instruction {
        Instruction::Nop => {
            if params.len() == 0 {
                Ok(Action::Continue)
            } else {
                shape_error(Instruction::Nop, ctx)
            }
        },
        Instruction::Push => push(params, ctx),
        Instruction::Pop => pop(params, ctx),
        Instruction::Mov => mov(params, ctx),
        Instruction::Xchg => xchg(params, ctx),
        Instruction::Add | Instruction::Sub | Instruction::Mul | Instruction::Div
        | Instruction::And | Instruction::Or | Instruction::Xor => calculate(
            *instruction,
            params,
            ctx,
        ),
        Instruction::Inc | Instruction::Dec | Instruction::Not => rewrite(
            *instruction,
            params,
            ctx,
        ),
        Instruction::Shl | Instruction::Shr => shift(*instruction, params, ctx),
        Instruction::Cmp | Instruction::Test => compare(*instruction, params, ctx),
        Instruction::Jmp | Instruction::Jz | Instruction::Jnz | Instruction::Jg
        | Instruction::Jl | Instruction::Jge | Instruction::Jle | Instruction::Je
        | Instruction::Jne => jump(*instruction, params, ctx),
        Instruction::Call => call(params, ctx),
        Instruction::Ret => ret(params, ctx),
    }
}

// Variables

/// The bytes of `number` in the order in which this machine keeps them.
///
/// Wraps `i32::to_ne_bytes`, which gives the memory representation of the
/// integer in native byte order: the little-endian bytes on one kind of
/// machine, the same bytes reversed on the other.
#[verifier::external_body]
fn native_bytes(number: i32) -> (bytes: [u8; 4])
    ensures
        bytes@ == semantics::little_endian(number) || bytes@ == semantics::little_endian(
            number,
        ).reverse(),
{
    number.to_ne_bytes()
}

/// Appends the four bytes of `number` to `bytes`, the lowest first where
/// `little` holds and the highest first where not.
fn push_number(bytes: &mut Vec<u8>, number: i32, little: bool)
    ensures
        final(bytes)@ == old(bytes)@ + semantics::native_endian(number, little),
{
    assert(0 <= (number & 0xff) < 256 && 0 <= ((number >> 8) & 0xff) < 256 && 0 <= ((number >> 16)
        & 0xff) < 256 && 0 <= ((number >> 24) & 0xff) < 256) by (bit_vector);
    let b0 = (number & 0xff) as u8;
    let b1 = ((number >> 8) & 0xff) as u8;
    let b2 = ((number >> 16) & 0xff) as u8;
    let b3 = ((number >> 24) & 0xff) as u8;
    if little {
        bytes.push(b0);
        bytes.push(b1);
        bytes.push(b2);
        bytes.push(b3);
        assert(bytes@ == old(bytes)@ + semantics::little_endian(number));
    } else {
        bytes.push(b3);
        bytes.push(b2);
        bytes.push(b1);
        bytes.push(b0);
        assert(bytes@ == old(bytes)@ + semantics::little_endian(number).reverse());
    }
}

/// A new buffer at the end of the heap, known as `identifier`.
fn define(identifier: &String, bytes: Vec<u8>, ctx: &mut ExecutingContext) -> (result: Result<
    Action,
    AsmrRuntimeError,
>)
    ensures
        agrees(
            result,
            final(ctx)@,
            semantics::define(old(ctx)@, identifier@, bytes@),
            old(ctx).ptr,
        ),
{
    if ctx.heap.len() > 0x7fff_ffff {
        return Err(AsmrRuntimeError::from(ctx.ptr, "heap cannot hold another buffer"));
    }
    let index = ctx.heap.len() as i32;
    ctx.heap.push(bytes);
    ctx.symtab.insert(identifier.clone(), index);
    assert(ctx@.heap == old(ctx)@.heap.push(bytes@));
    Ok(Action::Continue)
}

/// `db` on a machine of the given byte order: the operands are laid out as
/// bytes, each text in UTF-8 and each number in four bytes, the lowest
/// first where `little` holds and the highest first where not. The buffer
/// is appended to the heap and `identifier` is bound to its index.
pub fn define_data(
    identifier: &String,
    params: &Vec<Token>,
    ctx: &mut ExecutingContext,
    little: bool,
) -> (result: Result<Action, AsmrRuntimeError>)
    ensures
        agrees(
            result,
            final(ctx)@,
            semantics::variable_outcome(
                old(ctx)@,
                identifier@,
                MemType::Db,
                params.deep_view(),
                little,
            ),
            old(ctx).ptr,
        ),
{
    let ghost operands = params.deep_view();
    let mut bytes: Vec<u8> = Vec::new();
    let mut i: usize = 0;
    assert(operands.take(0) == Seq::<TokenView>::empty());
    while i < params.len()
        invariant
            i <= params.len(),
            operands == params.deep_view(),
            semantics::is_data(operands.take(i as int)),
            bytes@ == semantics::data_bytes(operands.take(i as int), little),
            *ctx == *old(ctx),
        decreases params.len() - i,
    {
        assert(operands.take(i + 1).drop_last() == operands.take(i as int));
        match &params[i] {
            Token::String(text) => {
                let mut chunk = text.as_str().as_bytes_vec();
                bytes.append(&mut chunk);
            },
            Token::Numeric(number) => {
                push_number(&mut bytes, *number, little);
            },
            _ => {
                assert(!(operands[i as int] is String || operands[i as int] is Numeric));
                return Err(
                    AsmrRuntimeError::from(
                        ctx.ptr,
                        "`db` takes parameters of type <...[String | Numeric]>",
                    ),
                );
            },
        }
        assert forall|k: int| 0 <= k < i + 1 implies ((#[trigger] operands.take(i + 1)[k])
            is String || operands.take(i + 1)[k] is Numeric) by {
            if k < i {
                assert(operands.take(i as int)[k] == operands.take(i + 1)[k]);
            }
        }
        i += 1;
    }
    assert(operands.take(params.len() as int) == operands);
    define(identifier, bytes, ctx)
}

/// Executes a variable definition.
///
/// `db` lays out its operands as [`define_data`] does, in the byte order of
/// the machine that runs the interpreter; `resb` reserves room for as many
/// bytes as its operand says and appends an empty buffer. Either way
/// `identifier` is bound to the index of the new buffer.
pub fn handle_variable(
    identifier: &String,
    mem_type: &MemType,
    params: &Vec<Token>,
    ctx: &mut ExecutingContext,
) -> (result: Result<Action, AsmrRuntimeError>)
    ensures
        exists|little: bool|
            agrees(
                result,
                final(ctx)@,
                semantics::variable_outcome(
                    old(ctx)@,
                    identifier@,
                    *mem_type,
                    params.deep_view(),
                    little,
                ),
                old(ctx).ptr,
            ),
{
    match mem_type {
        MemType::Db => {
            let probe = native_bytes(1);
            let little = probe[0] == 1;
            let result = define_data(identifier, params, ctx, little);
            assert(agrees(
                result,
                ctx@,
                semantics::variable_outcome(
                    old(ctx)@,
                    identifier@,
                    *mem_type,
                    params.deep_view(),
                    little,
                ),
                old(ctx).ptr,
            ));
            result
        },
        MemType::Resb => {
            let result = reserve(identifier, params, ctx);
            assert(agrees(
                result,
                ctx@,
                semantics::variable_outcome(
                    old(ctx)@,
                    identifier@,
                    *mem_type,
                    params.deep_view(),
                    true,
                ),
                old(ctx).ptr,
            ));
            result
        },
    }
}

/// `resb`: an empty buffer with room for as many bytes as the one operand
/// says, which has to be a number above 0.
fn reserve(identifier: &String, params: &Vec<Token>, ctx: &mut ExecutingContext) -> (result: Result<
    Action,
    AsmrRuntimeError,
>)
    ensures
        forall|little: bool|
            agrees(
                result,
                final(ctx)@,
                #[trigger] semantics::variable_outcome(
                    old(ctx)@,
                    identifier@,
                    MemType::Resb,
                    params.deep_view(),
                    little,
                ),
                old(ctx).ptr,
            ),
{
    if params.len() != 1 {
        return Err(AsmrRuntimeError::from(ctx.ptr, "`resb` takes one parameter of type <Numeric>"));
    }
    match &params[0] {
        Token::Numeric(size) => {
            if *size <= 0 {
                return Err(
                    AsmrRuntimeError::from(
                        ctx.ptr,
                        "`resb` requires the parameter <Numeric> to be greater than 0",
                    ),
                );
            }
            let buffer: Vec<u8> = Vec::with_capacity(*size as usize);
            define(identifier, buffer, ctx)
        },
        _ => Err(AsmrRuntimeError::from(ctx.ptr, "`resb` takes one parameter of type <Numeric>")),
    }
}

// The dispatch loop

/// The machine that is ready to run `lines`.
///
/// The stack holds the return address of the whole program and a first
/// saved base pointer, and the label table holds the line of each label.
pub fn start(lines: &Vec<Line>) -> (ctx: ExecutingContext)
    ensures
        ctx@ == semantics::loaded(lines.deep_view()),
{
    let mut ctx = ExecutingContext::new();
    ctx.stack.push(RegisterData::Pointer(#[verifier::truncate]
    (lines.len() as i32)));
    ctx.stack.push(RegisterData::Pointer(0));
    let mut esp = ctx.registers.get(RegisterName::Esp);
    esp.add_assign(1);
    ctx.registers.set(RegisterName::Esp, esp.data);
    let ghost program = lines.deep_view();
    let mut i: usize = 0;
    assert(program.take(0) == Seq::<LineView>::empty());
    while i < lines.len()
        invariant
            i <= lines.len(),
            program == lines.deep_view(),
            ctx.labels@ == semantics::label_table(program.take(i as int)),
            ctx@ == (MachineState {
                labels: ctx.labels@,
                ..semantics::loaded(program)
            }),
        decreases lines.len() - i,
    {
        assert(program.take(i + 1).drop_last() == program.take(i as int));
        assert(program.take(i + 1).last() == lines[i as int]@);
        match &lines[i] {
            Line::Label(name) => {
                ctx.labels.insert(name.clone(), i);
            },
            _ => {},
        }
        i += 1;
    }
    assert(program.take(lines.len() as int) == program);
    ctx
}

/// Moves the machine on to the next line.
fn advance(ctx: &mut ExecutingContext)
    ensures
        final(ctx)@ == semantics::advance(old(ctx)@),
{
    ctx.ptr = ctx.next;
    ctx.registers.set(RegisterName::Eip, RegisterData::Pointer(#[verifier::truncate]
    (ctx.ptr as i32)));
    ctx.next = ctx.next.wrapping_add(1);
}

/// One turn of the dispatch loop.
///
/// Past the last line the result is [`Action::Exit`] with the low 8 bits of
/// `eax`. Otherwise the current line is executed. After a line that asks
/// nothing of the host the machine moves on to the next line; after a call
/// of a built-in the machine waits, inside the call, for [`resume`].
pub fn step(lines: &Vec<Line>, ctx: &mut ExecutingContext) -> (result: Result<
    Action,
    AsmrRuntimeError,
>)
    ensures
        exists|little: bool|
            agrees(
                result,
                final(ctx)@,
                semantics::step_outcome(old(ctx)@, lines.deep_view(), little),
                old(ctx).ptr,
            ),
{
    let ghost program = lines.deep_view();
    if ctx.ptr >= lines.len() {
        let raw = ctx.registers.get(RegisterName::Eax).get_raw();
        assert(0 <= (raw & 0xff) < 256) by (bit_vector);
        let result = Ok(Action::Exit((raw & 0xff) as u8));
        assert(agrees(result, ctx@, semantics::step_outcome(old(ctx)@, program, true), ctx.ptr));
        return result;
    }
    let ghost line = program[ctx.ptr as int];
    assert(line == lines[ctx.ptr as int]@);
    let ghost little = true;
    let executed = match &lines[ctx.ptr] {
        Line::Instruction { instruction, params } => handle_instruction(instruction, params, ctx),
        Line::Variable { identifier, mem_type, params } => {
            let defined = handle_variable(identifier, mem_type, params, ctx);
            proof {
                little = choose|little: bool|
                    agrees(
                        defined,
                        ctx@,
                        semantics::variable_outcome(
                            old(ctx)@,
                            identifier@,
                            *mem_type,
                            params.deep_view(),
                            little,
                        ),
                        old(ctx).ptr,
                    );
            }
            defined
        },
        _ => Ok(Action::Continue),
    };
    assert(agrees(executed, ctx@, semantics::line_outcome(old(ctx)@, line, little), old(ctx).ptr));
    let result = match executed {
        Ok(Action::Continue) => {
            advance(ctx);
            Ok(Action::Continue)
        },
        other => other,
    };
    assert(agrees(result, ctx@, semantics::step_outcome(old(ctx)@, program, little), old(ctx).ptr));
    result
}

/// Completes the call of a built-in that the last [`step`] left waiting.
///
/// The built-in takes what the host hands back and clears its parameter,
/// the frame of the call is left as by `ret`, and the machine moves on to
/// the next line.
pub fn resume(event: &Event, ctx: &mut ExecutingContext) -> (result: Result<
    Action,
    AsmrRuntimeError,
>)
    ensures
        agrees(result, final(ctx)@, semantics::resume_outcome(old(ctx)@, event@), old(ctx).ptr),
{
    match complete_builtin_fn(event, ctx) {
        Err(error) => {
            return Err(error);
        },
        Ok(_) => {},
    }
    match leave_frame(ctx) {
        Err(error) => {
            return Err(error);
        },
        Ok(_) => {},
    }
    advance(ctx);
    Ok(Action::Continue)
}

} // verus!

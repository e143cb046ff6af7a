//! The built-in functions that `call` reaches under the prefix `asmr::`.
//!
//! A built-in finds its parameters on the stack under the frame that `call`
//! has pushed: the caller pushes them in reverse order, so the first
//! parameter lies directly under the saved `eip`.

use vstd::prelude::*;

use crate::interpreter::action::{agrees, Action, Event};
use crate::interpreter::error::AsmrRuntimeError;
use crate::interpreter::semantics::{
    builtin_completion, builtin_request, done, fault, parameter, parameter_fault,
    parameters_present, print_request, readln_request, without_line_ending, without_parameters,
};
use crate::machine::executing_context::ExecutingContext;
use crate::machine::register::{RegisterData, RegisterName};
use crate::parser::text::{decimal, push_decimal, slice, spells, to_chars, to_text};

verus! {

/// What the built-in `func_name` asks of the host. The machine stays as it
/// is until the host resumes it.
pub fn call_builtin_fn(func_name: &String, ctx: &ExecutingContext) -> (result: Result<
    Action,
    AsmrRuntimeError,
>)
    ensures
        agrees(result, ctx@, builtin_request(ctx@, func_name@), ctx.ptr),
{
    let name = to_chars(func_name.as_str());
    if spells(&name, "asmr::io::print") {
        io_print(ctx)
    } else if spells(&name, "asmr::io::readln") {
        io_readln(ctx)
    } else {
        let mut cause = String::from_str("no function found: `");
        cause.append(func_name.as_str());
        cause.append("`");
        Err(AsmrRuntimeError { line_number: ctx.ptr, cause })
    }
}

/// What a built-in does once the host has done its part: `print` clears its
/// parameter, `readln` stores the line and clears its parameter.
pub fn complete_builtin_fn(event: &Event, ctx: &mut ExecutingContext) -> (result: Result<
    Action,
    AsmrRuntimeError,
>)
    ensures
        agrees(result, final(ctx)@, builtin_completion(old(ctx)@, event@), old(ctx).ptr),
{
    match event {
        Event::Printed => clear_params(1, ctx),
        Event::Line(line) => {
            match get_param(1, ctx) {
                None => Err(
                    AsmrRuntimeError::from(ctx.ptr, "parameter does not address a stack cell"),
                ),
                Some(RegisterData::Value(_)) => Err(
                    AsmrRuntimeError::from(ctx.ptr, "expected pointer but found value"),
                ),
                Some(RegisterData::Pointer(p)) => {
                    if p < 0 || p as usize >= ctx.heap.len() {
                        return Err(
                            AsmrRuntimeError::from(
                                ctx.ptr,
                                "pointer does not address a heap buffer",
                            ),
                        );
                    }
                    let bytes = line_bytes(line.as_str());
                    let ghost before = ctx@;
                    ctx.heap[p as usize] = bytes;
                    assert(ctx@.heap == before.heap.update(p as int, bytes@));
                    clear_params(1, ctx)
                },
            }
        },
    }
}

/// The UTF-8 bytes of `line` without its line ending.
fn line_bytes(line: &str) -> (bytes: Vec<u8>)
    ensures
        bytes@ == vstd::utf8::encode_utf8(without_line_ending(line@)),
{
    let chars = to_chars(line);
    let mut end: usize = chars.len();
    assert(chars@.subrange(0, end as int) == chars@);
    if end > 0 && chars[end - 1] == '\n' {
        end -= 1;
        assert(chars@.subrange(0, end as int) == chars@.drop_last());
        if end > 0 && chars[end - 1] == '\r' {
            end -= 1;
            assert(chars@.subrange(0, end as int) == chars@.drop_last().drop_last());
        }
    }
    let kept = slice(&chars, 0, end);
    let text = to_text(&kept);
    text.as_str().as_bytes_vec()
}

/// The `n`th parameter of the built-in that is being called, counted from
/// 1, or `None` where it would lie outside the stack.
///
/// For a function `mul(a, b)` the caller pushes `b`, then `a`, and calls;
/// `get_param(1, ctx)` is then `a` and `get_param(2, ctx)` is `b`.
pub fn get_param(n: i32, ctx: &ExecutingContext) -> (param: Option<RegisterData>)
    ensures
        param == parameter(ctx@, n as int),
{
    let base = ctx.registers.get(RegisterName::Ebp).get_raw();
    let at: i64 = base as i64 - 1 - n as i64;
    if 0 <= at && (at as u64) < ctx.stack.len() as u64 {
        Some(ctx.stack[at as usize])
    } else {
        None
    }
}

/// Takes the cells from `from` up to, not including, `to` out of `stack`.
fn drain(stack: &mut Vec<RegisterData>, from: usize, to: usize)
    requires
        from <= to <= old(stack).len(),
    ensures
        final(stack)@ == old(stack)@.subrange(0, from as int) + old(stack)@.subrange(
            to as int,
            old(stack).len() as int,
        ),
{
    let mut taken: usize = 0;
    let count = to - from;
    assert(stack@ =~= old(stack)@.subrange(0, from as int) + old(stack)@.subrange(
        from as int,
        old(stack).len() as int,
    ));
    while taken < count
        invariant
            count == to - from,
            taken <= count,
            from <= to <= old(stack).len(),
            stack@ == old(stack)@.subrange(0, from as int) + old(stack)@.subrange(
                from + taken,
                old(stack).len() as int,
            ),
        decreases count - taken,
    {
        let ghost before = stack@;
        stack.remove(from);
        assert(stack@ =~= old(stack)@.subrange(0, from as int) + old(stack)@.subrange(
            from + taken + 1,
            old(stack).len() as int,
        ));
        taken += 1;
    }
}

/// Clears `n` parameters from the stack.
///
/// After a call the stack ends with the parameters, the saved `eip` and the
/// saved `ebp`. The parameters leave, `ebp` and `esp` move down by `n`, and
/// the frame stays in place, so that `ret` works as after any call.
pub fn clear_params(n: i32, ctx: &mut ExecutingContext) -> (result: Result<Action, AsmrRuntimeError>)
    ensures
        agrees(
            result,
            final(ctx)@,
            if parameters_present(old(ctx)@, n as int) {
                done(without_parameters(old(ctx)@, n))
            } else {
                fault(old(ctx)@, parameter_fault())
            },
            old(ctx).ptr,
        ),
{
    let mut ebp = ctx.registers.get(RegisterName::Ebp);
    let frame: i64 = ebp.get_raw() as i64 - 1;
    if n < 0 || (n as i64) > frame || (frame as u64) > ctx.stack.len() as u64 {
        return Err(AsmrRuntimeError::from(ctx.ptr, "parameter does not address a stack cell"));
    }
    drain(&mut ctx.stack, (frame - n as i64) as usize, frame as usize);
    ebp.sub_assign(n);
    ctx.registers.set(RegisterName::Ebp, ebp.data);
    let mut esp = ctx.registers.get(RegisterName::Esp);
    esp.sub_assign(n);
    ctx.registers.set(RegisterName::Esp, esp.data);
    Ok(Action::Continue)
}

/// The text that `asmr::io::print` writes.
fn io_print(ctx: &ExecutingContext) -> (result: Result<Action, AsmrRuntimeError>)
    ensures
        agrees(result, ctx@, print_request(ctx@), ctx.ptr),
{
    match get_param(1, ctx) {
        None => Err(AsmrRuntimeError::from(ctx.ptr, "parameter does not address a stack cell")),
        Some(RegisterData::Value(number)) => {
            let mut text = String::new();
            push_decimal(&mut text, number as i128);
            assert(text@ == decimal(number as int));
            Ok(Action::Print(text))
        },
        Some(RegisterData::Pointer(p)) => {
            if p < 0 || p as usize >= ctx.heap.len() {
                return Err(
                    AsmrRuntimeError::from(ctx.ptr, "pointer does not address a heap buffer"),
                );
            }
            let buffer = &ctx.heap[p as usize];
            let mut text = String::new();
            let mut i: usize = 0;
            while i < buffer.len()
                invariant
                    i <= buffer.len(),
                    text@ == buffer@.take(i as int).map_values(|b: u8| b as char),
                decreases buffer.len() - i,
            {
                text.push(buffer[i] as char);
                assert(buffer@.take(i + 1).map_values(|b: u8| b as char) == buffer@.take(
                    i as int,
                ).map_values(|b: u8| b as char).push(buffer@[i as int] as char));
                i += 1;
            }
            assert(buffer@.take(buffer.len() as int) == buffer@);
            Ok(Action::Print(text))
        },
    }
}

/// Whether `asmr::io::readln` can ask for a line: its parameter has to be a
/// pointer.
fn io_readln(ctx: &ExecutingContext) -> (result: Result<Action, AsmrRuntimeError>)
    ensures
        agrees(result, ctx@, readln_request(ctx@), ctx.ptr),
{
    match get_param(1, ctx) {
        None => Err(AsmrRuntimeError::from(ctx.ptr, "parameter does not address a stack cell")),
        Some(RegisterData::Value(_)) => Err(
            AsmrRuntimeError::from(ctx.ptr, "expected pointer but found value"),
        ),
        Some(RegisterData::Pointer(_)) => Ok(Action::ReadLine),
    }
}

} // verus!

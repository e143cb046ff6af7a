//! Laws of the instruction set, proved from [`semantics`](super::semantics).

use vstd::prelude::*;

use crate::interpreter::semantics::{
    advance, all_registers, call_outcome, compared, done, enter_frame, go_to,
    instruction_outcome, is_builtin_name, jump_taken, label_table, leave_frame, loaded,
    pop_outcome, pop_register, push_all, push_outcome, push_register, resume_outcome,
    ret_outcome, retreat, step_outcome, variable_outcome, EventView,
};
use crate::parser::line::{LineView, MemType};
use crate::machine::executing_context::MachineState;
use crate::machine::flags::Flag;
use crate::machine::register::{RegisterData, RegisterName};
use crate::parser::instruction::Instruction;
use crate::parser::token::TokenView;

verus! {

/// Whether nothing but the instruction pointers may differ between two
/// states: they have the same stack, heap, flags and tables, and every
/// register but `eip` holds the same.
pub open spec fn same_but_for_eip(a: MachineState, b: MachineState) -> bool {
    &&& a.stack == b.stack
    &&& a.heap == b.heap
    &&& a.flags == b.flags
    &&& a.symtab == b.symtab
    &&& a.labels == b.labels
    &&& forall|name: RegisterName|
        #![trigger a.registers[name]]
        #![trigger b.registers[name]]
        name != RegisterName::Eip ==> a.registers[name] == b.registers[name]
}

/// Moving on to the next line changes nothing but the instruction pointers.
pub proof fn lemma_advance_keeps_the_rest(state: MachineState)
    ensures
        same_but_for_eip(advance(state), state),
{
}

/// Moving a cell up and then down by the same amount gives the cell back.
pub proof fn lemma_offset_retreat(data: RegisterData, delta: i32)
    ensures
        retreat(data.offset(delta), delta) == data,
{
}

/// `push` of one register is [`push_register`].
pub proof fn lemma_push_one(state: MachineState, register: RegisterName)
    ensures
        push_outcome(state, seq![TokenView::Register(register)]) == done(
            push_register(state, register),
        ),
{
    let operands = seq![TokenView::Register(register)];
    assert(operands.drop_last() == Seq::<TokenView>::empty());
    assert(push_all(state, operands.drop_last()) == state);
    assert(operands.last() == TokenView::Register(register));
    assert(push_all(state, operands) == push_register(state, register));
    assert(all_registers(operands));
}

/// `push r` and then `pop r` leave the stack and every register as they
/// were, `r` and `esp` among them, if `esp` was the index of the topmost
/// stack cell and the stack has room for one more cell that `esp` can name.
/// Whether the machine has moved on to the next line in between makes no
/// difference.
pub proof fn lemma_push_pop_restores(
    state: MachineState,
    register: RegisterName,
    between: MachineState,
)
    requires
        state.well_formed(),
        state.esp_at_top(),
        state.stack.len() <= i32::MAX,
        between.well_formed(),
        same_but_for_eip(between, push_outcome(state, seq![TokenView::Register(register)]).state),
    ensures
        push_outcome(state, seq![TokenView::Register(register)]).result is Ok,
        pop_outcome(between, seq![TokenView::Register(register)]).result is Ok,
        ({
            let after = pop_outcome(between, seq![TokenView::Register(register)]).state;
            &&& after.stack == state.stack
            &&& after.registers[register] == state.registers[register]
            &&& same_but_for_eip(after, state)
        }),
{
    lemma_push_one(state, register);
    let pushed = push_register(state, register);
    let esp = state.registers[RegisterName::Esp];
    lemma_offset_retreat(esp, 1);
    assert(between.registers[RegisterName::Esp] == esp.offset(1));
    assert(between.raw(RegisterName::Esp) == state.stack.len());
    let after = pop_register(between, register).state;
    assert(pop_outcome(between, seq![TokenView::Register(register)]) == pop_register(
        between,
        register,
    ));
    assert(between.stack.remove(state.stack.len() as int) =~= state.stack);
    assert forall|name: RegisterName| name != RegisterName::Eip implies #[trigger] after.registers[name]
        == state.registers[name] by {
        assert(between.registers[name] == pushed.registers[name]);
    }
}

/// Without a step in between, `push r` and then `pop r` give the very state
/// back.
pub proof fn lemma_push_pop_is_identity(state: MachineState, register: RegisterName)
    requires
        state.well_formed(),
        state.esp_at_top(),
        state.stack.len() <= i32::MAX,
    ensures
        pop_outcome(
            push_outcome(state, seq![TokenView::Register(register)]).state,
            seq![TokenView::Register(register)],
        ) == done(state),
{
    lemma_push_one(state, register);
    let pushed = push_register(state, register);
    let esp = state.registers[RegisterName::Esp];
    lemma_offset_retreat(esp, 1);
    assert(pushed.raw(RegisterName::Esp) == state.stack.len());
    let after = pop_register(pushed, register).state;
    assert(pop_outcome(pushed, seq![TokenView::Register(register)]) == pop_register(
        pushed,
        register,
    ));
    assert(pushed.stack.remove(state.stack.len() as int) =~= state.stack);
    assert(after.stack == state.stack);
    assert(after.registers =~= state.registers);
}

/// Entering a frame and leaving it again, with nothing in between that
/// changes the stack or a register other than `eip`, give back the stack
/// and every register, `eip` among them.
pub proof fn lemma_frame_restores(state: MachineState, between: MachineState)
    requires
        state.well_formed(),
        state.esp_at_top(),
        state.stack.len() + 1 <= i32::MAX,
        between.well_formed(),
        same_but_for_eip(between, enter_frame(state)),
    ensures
        leave_frame(between).result is Ok,
        leave_frame(between).state.stack == state.stack,
        leave_frame(between).state.registers == state.registers,
        same_but_for_eip(leave_frame(between).state, state),
        leave_frame(between).state.next == (state.raw(RegisterName::Eip) as usize).wrapping_add(1),
{
    let length = state.stack.len() as int;
    let esp = state.registers[RegisterName::Esp];
    let ebp = state.registers[RegisterName::Ebp];
    let eip = state.registers[RegisterName::Eip];
    let first = push_register(state, RegisterName::Eip);
    let second = push_register(first, RegisterName::Ebp);
    let entered = enter_frame(state);
    assert(first.registers[RegisterName::Esp] == esp.offset(1));
    assert(second.registers[RegisterName::Esp] == esp.offset(1).offset(1));
    assert(esp.offset(1).offset(1).raw() == length + 1);
    assert(entered.registers[RegisterName::Ebp] == esp.offset(1).offset(1));
    assert(entered.stack == state.stack.push(eip).push(ebp));
    assert(between.registers[RegisterName::Ebp] == entered.registers[RegisterName::Ebp]);
    assert(between.stack == entered.stack);

    let unwound = between.with_register(RegisterName::Esp, between.registers[RegisterName::Ebp]);
    assert(unwound.raw(RegisterName::Esp) == length + 1);
    let base = pop_register(unwound, RegisterName::Ebp);
    assert(base.result is Ok);
    assert(base.state.stack =~= state.stack.push(eip));
    lemma_offset_retreat(esp.offset(1), 1);
    assert(base.state.registers[RegisterName::Esp] == esp.offset(1));
    assert(base.state.registers[RegisterName::Ebp] == ebp);
    assert(base.state.raw(RegisterName::Esp) == length);
    let address = pop_register(base.state, RegisterName::Eip);
    assert(address.result is Ok);
    assert(address.state.stack =~= state.stack);
    lemma_offset_retreat(esp, 1);
    assert(address.state.registers[RegisterName::Esp] == esp);
    assert(address.state.registers[RegisterName::Eip] == eip);
    assert(address.state.registers[RegisterName::Ebp] == ebp);
    let after = leave_frame(between).state;
    assert(after.registers == address.state.registers);
    assert forall|name: RegisterName| after.registers[name] == #[trigger] state.registers[name] by {
        if name != RegisterName::Eip && name != RegisterName::Esp && name != RegisterName::Ebp {
            assert(between.registers[name] == entered.registers[name]);
            assert(entered.registers[name] == state.registers[name]);
        }
    }
    assert(after.registers =~= state.registers);
}

/// `call` of a label and then `ret`, with nothing in between that changes
/// the stack or a register other than `eip`, leave the stack and every
/// register as they were before the call, if `esp` was the index of the
/// topmost stack cell and the stack has room for the frame. Execution goes
/// on after the line that `eip` named at the call.
pub proof fn lemma_call_ret_restores(state: MachineState, name: Seq<char>, between: MachineState)
    requires
        state.well_formed(),
        state.esp_at_top(),
        state.stack.len() + 1 <= i32::MAX,
        !is_builtin_name(name),
        state.labels.contains_key(name),
        between.well_formed(),
        same_but_for_eip(between, call_outcome(state, seq![TokenView::Identifier(name)]).state),
    ensures
        call_outcome(state, seq![TokenView::Identifier(name)]).result is Ok,
        call_outcome(state, seq![TokenView::Identifier(name)]).state.next == state.labels[name],
        ret_outcome(between, Seq::empty()).result is Ok,
        ({
            let after = ret_outcome(between, Seq::empty()).state;
            &&& after.stack == state.stack
            &&& after.registers == state.registers
            &&& same_but_for_eip(after, state)
            &&& after.next == (state.raw(RegisterName::Eip) as usize).wrapping_add(1)
        }),
{
    let operands = seq![TokenView::Identifier(name)];
    assert(operands[0] == TokenView::Identifier(name));
    let entered = enter_frame(state);
    assert(entered.labels == state.labels);
    let called = call_outcome(state, operands);
    assert(called == go_to(entered, name));
    assert(same_but_for_eip(between, entered));
    lemma_frame_restores(state, between);
    assert(ret_outcome(between, Seq::empty()) == leave_frame(between));
}

/// After `cmp`, `jg` is taken exactly where the two integers differ and the
/// sign and overflow flags, which `cmp` leaves alone, agree.
pub proof fn lemma_jg_after_cmp(flags: Set<Flag>, left: i32, right: i32)
    ensures
        jump_taken(Instruction::Jg, compared(flags, left, right)) == (left != right
            && flags.contains(Flag::SF) == flags.contains(Flag::OF)),
{
}

/// After `cmp a, b`, `jg` is taken exactly where `a > b`, on every input
/// but those where the sign and overflow flags from before the `cmp` say
/// otherwise: with the two flags in agreement that leaves out `a < b`, and
/// with the two at odds `a > b`.
pub proof fn lemma_jg_after_cmp_is_greater(flags: Set<Flag>, left: i32, right: i32)
    requires
        left == right || ((left > right) == (flags.contains(Flag::SF) == flags.contains(
            Flag::OF,
        ))),
    ensures
        jump_taken(Instruction::Jg, compared(flags, left, right)) == (left > right),
{
}

/// After `cmp a, b`, `je` and `jz` are taken exactly where `a == b`, and
/// `jne` and `jnz` exactly where not.
pub proof fn lemma_je_after_cmp(flags: Set<Flag>, left: i32, right: i32)
    ensures
        jump_taken(Instruction::Je, compared(flags, left, right)) == (left == right),
        jump_taken(Instruction::Jz, compared(flags, left, right)) == (left == right),
        jump_taken(Instruction::Jne, compared(flags, left, right)) == (left != right),
        jump_taken(Instruction::Jnz, compared(flags, left, right)) == (left != right),
{
}

/// The machine that is ready to run a program is well formed: `esp` is the
/// index of the topmost stack cell, which holds the first saved base
/// pointer, and `ebp` is that index too.
pub proof fn lemma_loaded_layout(program: Seq<LineView>)
    ensures
        loaded(program).well_formed(),
        loaded(program).esp_at_top(),
        loaded(program).stack.len() == 2,
        loaded(program).raw(RegisterName::Ebp) == 1,
        loaded(program).registers[RegisterName::Esp] == loaded(program).registers[RegisterName::Ebp],
        loaded(program).ptr == 0,
        loaded(program).next == 1,
{
}

/// After `call` has entered a frame, the stack ends with the caller's `eip`
/// and, above it, the caller's `ebp`; `ebp` is the index of the cell with
/// the saved `ebp`, and `esp` holds the same as `ebp`. This holds if `esp`
/// was the index of the topmost stack cell and the stack has room for the
/// frame.
pub proof fn lemma_frame_layout(state: MachineState)
    requires
        state.well_formed(),
        state.esp_at_top(),
        state.stack.len() + 1 <= i32::MAX,
    ensures
        enter_frame(state).stack == state.stack.push(state.registers[RegisterName::Eip]).push(
            state.registers[RegisterName::Ebp],
        ),
        enter_frame(state).raw(RegisterName::Ebp) == enter_frame(state).stack.len() - 1,
        enter_frame(state).registers[RegisterName::Esp] == enter_frame(
            state,
        ).registers[RegisterName::Ebp],
        enter_frame(state).esp_at_top(),
        enter_frame(state).well_formed(),
{
    let esp = state.registers[RegisterName::Esp];
    let first = push_register(state, RegisterName::Eip);
    let second = push_register(first, RegisterName::Ebp);
    assert(first.registers[RegisterName::Esp] == esp.offset(1));
    assert(second.registers[RegisterName::Esp] == esp.offset(1).offset(1));
}

/// `push` and `pop` of a register other than `esp` keep `esp` at the top
/// of the stack, as long as the stack has a cell to pop and room to push.
pub proof fn lemma_push_pop_keep_esp_at_top(state: MachineState, register: RegisterName)
    requires
        state.well_formed(),
        state.esp_at_top(),
    ensures
        state.stack.len() <= i32::MAX ==> push_register(state, register).esp_at_top(),
        state.stack.len() > 0 && register != RegisterName::Esp ==> pop_register(
            state,
            register,
        ).result is Ok && pop_register(state, register).state.esp_at_top(),
{
}

/// A name is in the label table exactly where a label of that name stands
/// in the program, and the table gives the last line where one stands.
pub proof fn lemma_label_table(program: Seq<LineView>, name: Seq<char>)
    requires
        program.len() <= usize::MAX,
    ensures
        label_table(program).contains_key(name) <==> exists|i: int|
            0 <= i < program.len() && #[trigger] program[i] == LineView::Label(name),
        label_table(program).contains_key(name) ==> {
            let at = label_table(program)[name] as int;
            &&& 0 <= at < program.len()
            &&& program[at] == LineView::Label(name)
            &&& forall|j: int| at < j < program.len() ==> #[trigger] program[j] != LineView::Label(name)
        },
    decreases program.len(),
{
    if program.len() > 0 {
        let shorter = program.drop_last();
        let last = program.len() - 1;
        lemma_label_table(shorter, name);
        assert forall|i: int| 0 <= i < shorter.len() implies #[trigger] shorter[i] == program[i] by {}
        if program[last] == LineView::Label(name) {
            assert(label_table(program) == label_table(shorter).insert(name, last as usize));
        } else {
            if label_table(shorter).contains_key(name) {
                let at = label_table(shorter)[name] as int;
                assert(program[at] == shorter[at]);
                assert forall|j: int| at < j < program.len() implies #[trigger] program[j]
                    != LineView::Label(name) by {
                    if j < shorter.len() {
                        assert(shorter[j] == program[j]);
                    }
                }
            }
            if exists|i: int| 0 <= i < program.len() && #[trigger] program[i] == LineView::Label(name) {
                let i = choose|i: int|
                    0 <= i < program.len() && #[trigger] program[i] == LineView::Label(name);
                assert(shorter[i] == program[i]);
            }
        }
    }
}

// What every step keeps

/// Whether every variable is bound to the index of a heap buffer.
pub open spec fn symbols_in_heap(state: MachineState) -> bool {
    forall|name: Seq<char>|
        state.symtab.contains_key(name) ==> 0 <= #[trigger] state.symtab[name] < state.heap.len()
}

/// Whether `after` has the memory of `before`: the same heap, the same
/// variables and the same labels.
pub open spec fn same_memory(after: MachineState, before: MachineState) -> bool {
    &&& after.heap == before.heap
    &&& after.symtab == before.symtab
    &&& after.labels == before.labels
}

/// `push` leaves the memory alone.
pub proof fn lemma_push_keeps_memory(state: MachineState, params: Seq<TokenView>)
    ensures
        same_memory(push_all(state, params), state),
        push_all(state, params).flags == state.flags,
    decreases params.len(),
{
    if params.len() > 0 {
        lemma_push_keeps_memory(state, params.drop_last());
    }
}

/// No instruction changes the heap, the variables or the labels, whether
/// it succeeds or fails: instructions work on registers, flags and stack.
pub proof fn lemma_instruction_keeps_memory(
    instruction: Instruction,
    state: MachineState,
    params: Seq<TokenView>,
)
    ensures
        same_memory(instruction_outcome(instruction, state, params).state, state),
{
    match instruction {
        Instruction::Push => {
            lemma_push_keeps_memory(state, params);
        },
        Instruction::Call => {},
        Instruction::Ret => {},
        _ => {},
    }
}

/// A variable definition appends to the heap and binds a name to the new
/// buffer: the variables that there were stay bound as they were, unless
/// the name is theirs, and the labels stay.
pub proof fn lemma_variable_grows_memory(
    state: MachineState,
    identifier: Seq<char>,
    mem_type: MemType,
    params: Seq<TokenView>,
    little: bool,
)
    requires
        symbols_in_heap(state),
    ensures
        ({
            let outcome = variable_outcome(state, identifier, mem_type, params, little);
            &&& symbols_in_heap(outcome.state)
            &&& outcome.state.labels == state.labels
            &&& outcome.result is Err ==> outcome.state == state
            &&& outcome.result is Ok ==> {
                &&& outcome.state.heap.len() == state.heap.len() + 1
                &&& outcome.state.heap.drop_last() == state.heap
                &&& outcome.state.symtab == state.symtab.insert(
                    identifier,
                    state.heap.len() as i32,
                )
            }
        }),
{
    let outcome = variable_outcome(state, identifier, mem_type, params, little);
    if outcome.result is Ok {
        assert(outcome.state.heap.drop_last() =~= state.heap);
    }
}

/// Every step keeps the variables bound to heap buffers, never shortens
/// the heap, and leaves the label table as the program was loaded with it.
pub proof fn lemma_step_keeps_memory_sound(
    state: MachineState,
    program: Seq<LineView>,
    little: bool,
)
    requires
        symbols_in_heap(state),
    ensures
        symbols_in_heap(step_outcome(state, program, little).state),
        step_outcome(state, program, little).state.heap.len() >= state.heap.len(),
        step_outcome(state, program, little).state.labels == state.labels,
{
    if state.ptr < program.len() {
        match program[state.ptr as int] {
            LineView::Instruction { instruction, params } => {
                lemma_instruction_keeps_memory(instruction, state, params);
            },
            LineView::Variable { identifier, mem_type, params } => {
                lemma_variable_grows_memory(state, identifier, mem_type, params, little);
            },
            _ => {},
        }
    }
}

/// Resuming a call keeps the variables bound to heap buffers and leaves
/// the heap as long as it was and the label table as it was: a line that
/// was read replaces what one buffer holds, and nothing else in memory
/// changes.
pub proof fn lemma_resume_keeps_memory_sound(state: MachineState, event: EventView)
    requires
        symbols_in_heap(state),
    ensures
        symbols_in_heap(resume_outcome(state, event).state),
        resume_outcome(state, event).state.heap.len() == state.heap.len(),
        resume_outcome(state, event).state.labels == state.labels,
        resume_outcome(state, event).state.symtab == state.symtab,
        event is Printed ==> resume_outcome(state, event).state.heap == state.heap,
{
}

/// The machine that is ready to run a program has no variable yet.
pub proof fn lemma_loaded_memory(program: Seq<LineView>)
    ensures
        symbols_in_heap(loaded(program)),
        loaded(program).heap.len() == 0,
        loaded(program).labels == label_table(program),
{
}

} // verus!

use vstd::hash_map::StringHashMap;
use vstd::prelude::*;

use crate::machine::flags::{Flag, Flags};
use crate::machine::register::{initial_registers, RegisterData, RegisterFile, RegisterName};

verus! {

/// The state of the machine while a program runs.
pub struct ExecutingContext {
    /// The condition codes.
    pub flags: Flags,
    /// The registers.
    pub registers: RegisterFile,
    /// The stack; `push` appends.
    pub stack: Vec<RegisterData>,
    /// The heap: byte buffers, each known by its index.
    pub heap: Vec<Vec<u8>>,
    /// The heap index of each variable.
    pub symtab: StringHashMap<i32>,
    /// The line index of each label.
    pub labels: StringHashMap<usize>,
    /// The line that is being executed.
    pub ptr: usize,
    /// The line to execute after it.
    pub next: usize,
}

/// An [`ExecutingContext`] as a mathematical value.
#[verifier::ext_equal]
pub struct MachineState {
    pub flags: Set<Flag>,
    pub registers: Map<RegisterName, RegisterData>,
    pub stack: Seq<RegisterData>,
    pub heap: Seq<Seq<u8>>,
    pub symtab: Map<Seq<char>, i32>,
    pub labels: Map<Seq<char>, usize>,
    pub ptr: usize,
    pub next: usize,
}

impl View for ExecutingContext {
    type V = MachineState;

    open spec fn view(&self) -> MachineState {
        MachineState {
            flags: self.flags@,
            registers: self.registers@,
            stack: self.stack@,
            heap: self.heap@.map_values(|buffer: Vec<u8>| buffer@),
            symtab: self.symtab@,
            labels: self.labels@,
            ptr: self.ptr,
            next: self.next,
        }
    }
}

impl MachineState {
    /// The machine before anything is loaded: no flag raised, the registers
    /// at their initial values, stack, heap and tables empty, about to
    /// execute line 0 and then line 1.
    pub open spec fn fresh() -> MachineState {
        MachineState {
            flags: Set::empty(),
            registers: initial_registers(),
            stack: Seq::empty(),
            heap: Seq::empty(),
            symtab: Map::empty(),
            labels: Map::empty(),
            ptr: 0,
            next: 1,
        }
    }

    /// The raw integer in a register.
    pub open spec fn raw(self, name: RegisterName) -> i32 {
        self.registers[name].raw()
    }

    /// The state with one register overwritten.
    pub open spec fn with_register(self, name: RegisterName, data: RegisterData) -> MachineState {
        MachineState { registers: self.registers.insert(name, data), ..self }
    }

    /// Whether every register has a cell. The view of an
    /// [`ExecutingContext`] always is.
    pub open spec fn well_formed(self) -> bool {
        forall|name: RegisterName| self.registers.contains_key(name)
    }

    /// Whether `esp` is the index of the topmost stack cell.
    pub open spec fn esp_at_top(self) -> bool {
        self.raw(RegisterName::Esp) == self.stack.len() - 1
    }
}

impl ExecutingContext {
    /// The view of a context has a cell for every register.
    pub proof fn lemma_well_formed(&self)
        ensures
            self@.well_formed(),
    {
        assert forall|name: RegisterName| self@.registers.contains_key(name) by {
            self.registers.lemma_total(name);
        }
    }

    /// The machine before anything is loaded.
    pub fn new() -> (ctx: Self)
        ensures
            ctx@ == MachineState::fresh(),
    {
        let ctx = ExecutingContext {
            flags: Flags::new(),
            registers: RegisterFile::new(),
            stack: Vec::new(),
            heap: Vec::new(),
            symtab: StringHashMap::new(),
            labels: StringHashMap::new(),
            ptr: 0,
            next: 1,
        };
        assert(ctx@.heap =~= Seq::<Seq<u8>>::empty());
        ctx
    }
}

} // verus!

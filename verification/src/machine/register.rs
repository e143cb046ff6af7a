use vstd::prelude::*;

use crate::parser::text::{spells, to_chars};

verus! {

/// What a register or a stack cell holds: a 32-bit integer tagged as a plain
/// value or as a pointer.
///
/// Arithmetic keeps the tag; comparisons and flag updates look at the raw
/// integer only.
#[derive(Clone, Copy, Debug, PartialEq, Eq, Structural)]
pub enum RegisterData {
    Value(i32),
    Pointer(i32),
}

impl RegisterData {
    /// The integer under the tag.
    pub open spec fn raw(self) -> i32 {
        match self {
            RegisterData::Value(i) => i,
            RegisterData::Pointer(p) => p,
        }
    }

    /// The same tag over another integer.
    pub open spec fn with_raw(self, raw: i32) -> RegisterData {
        match self {
            RegisterData::Value(_) => RegisterData::Value(raw),
            RegisterData::Pointer(_) => RegisterData::Pointer(raw),
        }
    }

    /// The cell moved by `delta`, wrapping, with its tag kept.
    pub open spec fn offset(self, delta: i32) -> RegisterData {
        self.with_raw(self.raw().wrapping_add(delta))
    }
}

/// Division of signed integers that rounds towards zero.
pub open spec fn truncated_quotient(a: int, b: int) -> int {
    if a >= 0 && b > 0 {
        a / b
    } else if a < 0 && b < 0 {
        (-a) / (-b)
    } else if a < 0 {
        -((-a) / b)
    } else {
        -(a / (-b))
    }
}

/// Signed 32-bit division that rounds towards zero and wraps on overflow:
/// the one quotient that does not fit, `i32::MIN / -1`, is `i32::MIN`.
pub open spec fn wrapping_quotient(a: i32, b: i32) -> i32
    recommends
        b != 0,
{
    if a == i32::MIN && b == -1 {
        i32::MIN
    } else {
        truncated_quotient(a as int, b as int) as i32
    }
}

/// A quotient of natural numbers is no more than the dividend, and no more
/// than half of it where the divisor is 2 or more.
proof fn lemma_quotient_bounds(a: int, b: int)
    requires
        0 <= a,
        0 < b,
    ensures
        0 <= a / b <= a,
        b >= 2 ==> 2 * (a / b) <= a,
{
    vstd::arithmetic::div_mod::lemma_fundamental_div_mod(a, b);
    vstd::arithmetic::div_mod::lemma_div_pos_is_pos(a, b);
    assert(0 <= a % b < b);
    let q = a / b;
    assert(b * q <= a);
    assert(q <= b * q) by (nonlinear_arith)
        requires
            q >= 0,
            b >= 1,
    ;
    if b >= 2 {
        assert(2 * q <= b * q) by (nonlinear_arith)
            requires
                q >= 0,
                b >= 2,
        ;
    }
}

/// Computes [`wrapping_quotient`].
pub fn wrapping_div(a: i32, b: i32) -> (q: i32)
    requires
        b != 0,
    ensures
        q == wrapping_quotient(a, b),
{
    let wide_a: i64 = a as i64;
    let wide_b: i64 = b as i64;
    let size_a: u64 = if wide_a < 0 {
        (-wide_a) as u64
    } else {
        wide_a as u64
    };
    let size_b: u64 = if wide_b < 0 {
        (-wide_b) as u64
    } else {
        wide_b as u64
    };
    let size_q: u64 = size_a / size_b;
    proof {
        lemma_quotient_bounds(size_a as int, size_b as int);
    }
    let negative = (a < 0) != (b < 0);
    if negative {
        (-(size_q as i64)) as i32
    } else if size_q > 0x7fff_ffff {
        i32::MIN
    } else {
        size_q as i32
    }
}

/// A register: one tagged cell.
#[derive(Clone, Copy, Debug, PartialEq, Eq)]
pub struct Register {
    pub data: RegisterData,
}

/// The names the lexer knows as registers.
///
/// The interpreter itself reads and writes the 32-bit data registers and
/// `eip`, `esp` and `ebp`; the shorter names are cells of their own and do not
/// alias them.
#[derive(Clone, Copy, Debug, PartialEq, Eq, Hash, Structural)]
pub enum RegisterName {
    // Data
    Eax,
    Ebx,
    Ecx,
    Edx,
    Ax,
    Bx,
    Cx,
    Dx,
    // Pointers
    Eip,
    Esp,
    Ebp,
    Ip,
    Sp,
    Bp,
    // Indices
    Esi,
    Edi,
    Si,
    Di,
    // Condition codes
    Flags,
}

/// How many register names there are.
pub const REGISTER_COUNT: usize = 19;

impl RegisterName {
    /// The position of this register in the register file.
    pub open spec fn spec_index(self) -> int {
        match self {
            RegisterName::Eax => 0,
            RegisterName::Ebx => 1,
            RegisterName::Ecx => 2,
            RegisterName::Edx => 3,
            RegisterName::Ax => 4,
            RegisterName::Bx => 5,
            RegisterName::Cx => 6,
            RegisterName::Dx => 7,
            RegisterName::Eip => 8,
            RegisterName::Esp => 9,
            RegisterName::Ebp => 10,
            RegisterName::Ip => 11,
            RegisterName::Sp => 12,
            RegisterName::Bp => 13,
            RegisterName::Esi => 14,
            RegisterName::Edi => 15,
            RegisterName::Si => 16,
            RegisterName::Di => 17,
            RegisterName::Flags => 18,
        }
    }

    /// The register at a position of the register file.
    pub open spec fn at(index: int) -> RegisterName {
        if index == 0 {
            RegisterName::Eax
        } else if index == 1 {
            RegisterName::Ebx
        } else if index == 2 {
            RegisterName::Ecx
        } else if index == 3 {
            RegisterName::Edx
        } else if index == 4 {
            RegisterName::Ax
        } else if index == 5 {
            RegisterName::Bx
        } else if index == 6 {
            RegisterName::Cx
        } else if index == 7 {
            RegisterName::Dx
        } else if index == 8 {
            RegisterName::Eip
        } else if index == 9 {
            RegisterName::Esp
        } else if index == 10 {
            RegisterName::Ebp
        } else if index == 11 {
            RegisterName::Ip
        } else if index == 12 {
            RegisterName::Sp
        } else if index == 13 {
            RegisterName::Bp
        } else if index == 14 {
            RegisterName::Esi
        } else if index == 15 {
            RegisterName::Edi
        } else if index == 16 {
            RegisterName::Si
        } else if index == 17 {
            RegisterName::Di
        } else {
            RegisterName::Flags
        }
    }

    /// The positions number the names one to one.
    pub proof fn lemma_index_at(self)
        ensures
            0 <= self.spec_index() < REGISTER_COUNT,
            Self::at(self.spec_index()) == self,
    {
    }

    /// Computes [`spec_index`](Self::spec_index).
    pub fn index(self) -> (i: usize)
        ensures
            i == self.spec_index(),
            i < REGISTER_COUNT,
    {
        match self {
            RegisterName::Eax => 0,
            RegisterName::Ebx => 1,
            RegisterName::Ecx => 2,
            RegisterName::Edx => 3,
            RegisterName::Ax => 4,
            RegisterName::Bx => 5,
            RegisterName::Cx => 6,
            RegisterName::Dx => 7,
            RegisterName::Eip => 8,
            RegisterName::Esp => 9,
            RegisterName::Ebp => 10,
            RegisterName::Ip => 11,
            RegisterName::Sp => 12,
            RegisterName::Bp => 13,
            RegisterName::Esi => 14,
            RegisterName::Edi => 15,
            RegisterName::Si => 16,
            RegisterName::Di => 17,
            RegisterName::Flags => 18,
        }
    }

    /// Every register name, in the order of the register file.
    pub fn all() -> (names: Vec<RegisterName>)
        ensures
            names.len() == REGISTER_COUNT,
            forall|i: int| 0 <= i < REGISTER_COUNT ==> names[i] == Self::at(i),
    {
        vec![
            RegisterName::Eax,
            RegisterName::Ebx,
            RegisterName::Ecx,
            RegisterName::Edx,
            RegisterName::Ax,
            RegisterName::Bx,
            RegisterName::Cx,
            RegisterName::Dx,
            RegisterName::Eip,
            RegisterName::Esp,
            RegisterName::Ebp,
            RegisterName::Ip,
            RegisterName::Sp,
            RegisterName::Bp,
            RegisterName::Esi,
            RegisterName::Edi,
            RegisterName::Si,
            RegisterName::Di,
            RegisterName::Flags,
        ]
    }

    /// The register as it is written in source text.
    pub open spec fn spec_name(self) -> Seq<char> {
        match self {
            RegisterName::Eax => "eax"@,
            RegisterName::Ebx => "ebx"@,
            RegisterName::Ecx => "ecx"@,
            RegisterName::Edx => "edx"@,
            RegisterName::Ax => "ax"@,
            RegisterName::Bx => "bx"@,
            RegisterName::Cx => "cx"@,
            RegisterName::Dx => "dx"@,
            RegisterName::Eip => "eip"@,
            RegisterName::Esp => "esp"@,
            RegisterName::Ebp => "ebp"@,
            RegisterName::Ip => "ip"@,
            RegisterName::Sp => "sp"@,
            RegisterName::Bp => "bp"@,
            RegisterName::Esi => "esi"@,
            RegisterName::Edi => "edi"@,
            RegisterName::Si => "si"@,
            RegisterName::Di => "di"@,
            RegisterName::Flags => "flags"@,
        }
    }

    /// The register that `text` names, if it names one. The match is exact
    /// and case-sensitive.
    pub open spec fn spec_from_name(text: Seq<char>) -> Option<RegisterName> {
        if text == "eax"@ {
            Some(RegisterName::Eax)
        }         else if text == "ebx"@ {
            Some(RegisterName::Ebx)
        }         else if text == "ecx"@ {
            Some(RegisterName::Ecx)
        }         else if text == "edx"@ {
            Some(RegisterName::Edx)
        }         else if text == "ax"@ {
            Some(RegisterName::Ax)
        }         else if text == "bx"@ {
            Some(RegisterName::Bx)
        }         else if text == "cx"@ {
            Some(RegisterName::Cx)
        }         else if text == "dx"@ {
            Some(RegisterName::Dx)
        }         else if text == "eip"@ {
            Some(RegisterName::Eip)
        }         else if text == "esp"@ {
            Some(RegisterName::Esp)
        }         else if text == "ebp"@ {
            Some(RegisterName::Ebp)
        }         else if text == "ip"@ {
            Some(RegisterName::Ip)
        }         else if text == "sp"@ {
            Some(RegisterName::Sp)
        }         else if text == "bp"@ {
            Some(RegisterName::Bp)
        }         else if text == "esi"@ {
            Some(RegisterName::Esi)
        }         else if text == "edi"@ {
            Some(RegisterName::Edi)
        }         else if text == "si"@ {
            Some(RegisterName::Si)
        }         else if text == "di"@ {
            Some(RegisterName::Di)
        }         else if text == "flags"@ {
            Some(RegisterName::Flags)
        } else {
            None
        }
    }

    /// Computes [`spec_name`](Self::spec_name).
    pub fn name(self) -> (text: &'static str)
        ensures
            text@ == self.spec_name(),
    {
        match self {
            RegisterName::Eax => "eax",
            RegisterName::Ebx => "ebx",
            RegisterName::Ecx => "ecx",
            RegisterName::Edx => "edx",
            RegisterName::Ax => "ax",
            RegisterName::Bx => "bx",
            RegisterName::Cx => "cx",
            RegisterName::Dx => "dx",
            RegisterName::Eip => "eip",
            RegisterName::Esp => "esp",
            RegisterName::Ebp => "ebp",
            RegisterName::Ip => "ip",
            RegisterName::Sp => "sp",
            RegisterName::Bp => "bp",
            RegisterName::Esi => "esi",
            RegisterName::Edi => "edi",
            RegisterName::Si => "si",
            RegisterName::Di => "di",
            RegisterName::Flags => "flags",
        }
    }

    /// Reads a register name given as characters.
    pub fn from_chars(chars: &Vec<char>) -> (register: Option<RegisterName>)
        ensures
            register == Self::spec_from_name(chars@),
    {
        if spells(chars, "eax") {
            Some(RegisterName::Eax)
        }         else if spells(chars, "ebx") {
            Some(RegisterName::Ebx)
        }         else if spells(chars, "ecx") {
            Some(RegisterName::Ecx)
        }         else if spells(chars, "edx") {
            Some(RegisterName::Edx)
        }         else if spells(chars, "ax") {
            Some(RegisterName::Ax)
        }         else if spells(chars, "bx") {
            Some(RegisterName::Bx)
        }         else if spells(chars, "cx") {
            Some(RegisterName::Cx)
        }         else if spells(chars, "dx") {
            Some(RegisterName::Dx)
        }         else if spells(chars, "eip") {
            Some(RegisterName::Eip)
        }         else if spells(chars, "esp") {
            Some(RegisterName::Esp)
        }         else if spells(chars, "ebp") {
            Some(RegisterName::Ebp)
        }         else if spells(chars, "ip") {
            Some(RegisterName::Ip)
        }         else if spells(chars, "sp") {
            Some(RegisterName::Sp)
        }         else if spells(chars, "bp") {
            Some(RegisterName::Bp)
        }         else if spells(chars, "esi") {
            Some(RegisterName::Esi)
        }         else if spells(chars, "edi") {
            Some(RegisterName::Edi)
        }         else if spells(chars, "si") {
            Some(RegisterName::Si)
        }         else if spells(chars, "di") {
            Some(RegisterName::Di)
        }         else if spells(chars, "flags") {
            Some(RegisterName::Flags)
        } else {
            None
        }
    }

    /// Reads a register name; `None` where `text` names none.
    pub fn from_str(text: &str) -> (register: Option<RegisterName>)
        ensures
            register == Self::spec_from_name(text@),
    {
        let chars = to_chars(text);
        Self::from_chars(&chars)
    }

    /// A register name is made of lower-case ASCII letters.
    pub proof fn lemma_name_is_lower_case(self)
        ensures
            self.spec_name().len() > 0,
            forall|i: int|
                0 <= i < self.spec_name().len() ==> 'a' <= #[trigger] self.spec_name()[i] <= 'z',
    {
        reveal_strlit("eax");
        reveal_strlit("ebx");
        reveal_strlit("ecx");
        reveal_strlit("edx");
        reveal_strlit("ax");
        reveal_strlit("bx");
        reveal_strlit("cx");
        reveal_strlit("dx");
        reveal_strlit("eip");
        reveal_strlit("esp");
        reveal_strlit("ebp");
        reveal_strlit("ip");
        reveal_strlit("sp");
        reveal_strlit("bp");
        reveal_strlit("esi");
        reveal_strlit("edi");
        reveal_strlit("si");
        reveal_strlit("di");
        reveal_strlit("flags");
    }

    /// Only the written form of a register is read as that register.
    pub proof fn lemma_from_name_is_name(text: Seq<char>)
        ensures
            Self::spec_from_name(text) matches Some(register) ==> register.spec_name() == text,
    {
    }

    /// Reading the written form of a register gives the register back.
    pub proof fn lemma_name_round_trip(self)
        ensures
            Self::spec_from_name(self.spec_name()) == Some(self),
    {
        reveal_strlit("eax");
        reveal_strlit("ebx");
        reveal_strlit("ecx");
        reveal_strlit("edx");
        reveal_strlit("ax");
        reveal_strlit("bx");
        reveal_strlit("cx");
        reveal_strlit("dx");
        reveal_strlit("eip");
        reveal_strlit("esp");
        reveal_strlit("ebp");
        reveal_strlit("ip");
        reveal_strlit("sp");
        reveal_strlit("bp");
        reveal_strlit("esi");
        reveal_strlit("edi");
        reveal_strlit("si");
        reveal_strlit("di");
        reveal_strlit("flags");
        assert("eax"@.len() == 3);
        assert("eax"@[0] == 'e');
        assert("eax"@[1] == 'a');
        assert("eax"@[2] == 'x');
        assert("ebx"@.len() == 3);
        assert("ebx"@[0] == 'e');
        assert("ebx"@[1] == 'b');
        assert("ebx"@[2] == 'x');
        assert("ecx"@.len() == 3);
        assert("ecx"@[0] == 'e');
        assert("ecx"@[1] == 'c');
        assert("ecx"@[2] == 'x');
        assert("edx"@.len() == 3);
        assert("edx"@[0] == 'e');
        assert("edx"@[1] == 'd');
        assert("edx"@[2] == 'x');
        assert("ax"@.len() == 2);
        assert("ax"@[0] == 'a');
        assert("ax"@[1] == 'x');
        assert("bx"@.len() == 2);
        assert("bx"@[0] == 'b');
        assert("bx"@[1] == 'x');
        assert("cx"@.len() == 2);
        assert("cx"@[0] == 'c');
        assert("cx"@[1] == 'x');
        assert("dx"@.len() == 2);
        assert("dx"@[0] == 'd');
        assert("dx"@[1] == 'x');
        assert("eip"@.len() == 3);
        assert("eip"@[0] == 'e');
        assert("eip"@[1] == 'i');
        assert("eip"@[2] == 'p');
        assert("esp"@.len() == 3);
        assert("esp"@[0] == 'e');
        assert("esp"@[1] == 's');
        assert("esp"@[2] == 'p');
        assert("ebp"@.len() == 3);
        assert("ebp"@[0] == 'e');
        assert("ebp"@[1] == 'b');
        assert("ebp"@[2] == 'p');
        assert("ip"@.len() == 2);
        assert("ip"@[0] == 'i');
        assert("ip"@[1] == 'p');
        assert("sp"@.len() == 2);
        assert("sp"@[0] == 's');
        assert("sp"@[1] == 'p');
        assert("bp"@.len() == 2);
        assert("bp"@[0] == 'b');
        assert("bp"@[1] == 'p');
        assert("esi"@.len() == 3);
        assert("esi"@[0] == 'e');
        assert("esi"@[1] == 's');
        assert("esi"@[2] == 'i');
        assert("edi"@.len() == 3);
        assert("edi"@[0] == 'e');
        assert("edi"@[1] == 'd');
        assert("edi"@[2] == 'i');
        assert("si"@.len() == 2);
        assert("si"@[0] == 's');
        assert("si"@[1] == 'i');
        assert("di"@.len() == 2);
        assert("di"@[0] == 'd');
        assert("di"@[1] == 'i');
        assert("flags"@.len() == 5);
        assert("flags"@[0] == 'f');
        assert("flags"@[1] == 'l');
        assert("flags"@[2] == 'a');
        assert("flags"@[3] == 'g');
        assert("flags"@[4] == 's');
    }

    /// What a register holds before the first instruction runs: `eip` and
    /// `esp` point at 0, `ebp` at 1 (the slot of the first saved base
    /// pointer), and every other register is the value 0.
    pub open spec fn initial_data(self) -> RegisterData {
        match self {
            RegisterName::Eip | RegisterName::Esp => RegisterData::Pointer(0),
            RegisterName::Ebp => RegisterData::Pointer(1),
            _ => RegisterData::Value(0),
        }
    }
}

impl Register {
    /// A register that holds the value 0.
    pub fn new() -> (r: Self)
        ensures
            r.data == RegisterData::Value(0),
    {
        Register { data: RegisterData::Value(0) }
    }

    /// The integer under the tag.
    pub fn get_raw(&self) -> (raw: i32)
        ensures
            raw == self.data.raw(),
    {
        match self.data {
            RegisterData::Value(i) => i,
            RegisterData::Pointer(p) => p,
        }
    }

    /// Puts `raw` under the tag the register has.
    fn set_raw(&mut self, raw: i32)
        ensures
            final(self).data == old(self).data.with_raw(raw),
    {
        match self.data {
            RegisterData::Value(_) => self.data = RegisterData::Value(raw),
            RegisterData::Pointer(_) => self.data = RegisterData::Pointer(raw),
        }
    }

    /// Wrapping addition; the tag stays.
    pub fn add_assign(&mut self, rhs: i32)
        ensures
            final(self).data == old(self).data.with_raw(old(self).data.raw().wrapping_add(rhs)),
    {
        let raw = self.get_raw().wrapping_add(rhs);
        self.set_raw(raw);
    }

    /// Wrapping subtraction; the tag stays.
    pub fn sub_assign(&mut self, rhs: i32)
        ensures
            final(self).data == old(self).data.with_raw(old(self).data.raw().wrapping_sub(rhs)),
    {
        let raw = self.get_raw().wrapping_sub(rhs);
        self.set_raw(raw);
    }

    /// Wrapping multiplication; the tag stays.
    pub fn mul_assign(&mut self, rhs: i32)
        ensures
            final(self).data == old(self).data.with_raw(old(self).data.raw().wrapping_mul(rhs)),
    {
        let raw = self.get_raw().wrapping_mul(rhs);
        self.set_raw(raw);
    }

    /// Division that rounds towards zero and wraps; the tag stays.
    pub fn div_assign(&mut self, rhs: i32)
        requires
            rhs != 0,
        ensures
            final(self).data == old(self).data.with_raw(
                wrapping_quotient(old(self).data.raw(), rhs),
            ),
    {
        let raw = wrapping_div(self.get_raw(), rhs);
        self.set_raw(raw);
    }

    /// Shift to the left by `rhs` modulo 32 bits; the tag stays.
    pub fn shl_assign(&mut self, rhs: i32)
        ensures
            final(self).data == old(self).data.with_raw(
                old(self).data.raw().wrapping_shl(rhs as u32),
            ),
    {
        let raw = self.get_raw().wrapping_shl(
            #[verifier::truncate]
            (rhs as u32),
        );
        self.set_raw(raw);
    }

    /// Arithmetic shift to the right by `rhs` modulo 32 bits; the tag stays.
    pub fn shr_assign(&mut self, rhs: i32)
        ensures
            final(self).data == old(self).data.with_raw(
                old(self).data.raw().wrapping_shr(rhs as u32),
            ),
    {
        let raw = self.get_raw().wrapping_shr(
            #[verifier::truncate]
            (rhs as u32),
        );
        self.set_raw(raw);
    }

    /// Bitwise conjunction; the tag stays.
    pub fn bitand_assign(&mut self, rhs: i32)
        ensures
            final(self).data == old(self).data.with_raw(old(self).data.raw() & rhs),
    {
        let raw = self.get_raw() & rhs;
        self.set_raw(raw);
    }

    /// Bitwise disjunction; the tag stays.
    pub fn bitor_assign(&mut self, rhs: i32)
        ensures
            final(self).data == old(self).data.with_raw(old(self).data.raw() | rhs),
    {
        let raw = self.get_raw() | rhs;
        self.set_raw(raw);
    }

    /// Bitwise complement; the tag stays.
    pub fn bitnot_assign_self(&mut self)
        ensures
            final(self).data == old(self).data.with_raw(!old(self).data.raw()),
    {
        let raw = !self.get_raw();
        self.set_raw(raw);
    }

    /// Bitwise exclusive disjunction; the tag stays.
    pub fn bitxor_assign(&mut self, rhs: i32)
        ensures
            final(self).data == old(self).data.with_raw(old(self).data.raw() ^ rhs),
    {
        let raw = self.get_raw() ^ rhs;
        self.set_raw(raw);
    }
}

/// The register file: one cell for each [`RegisterName`].
///
/// Its view is the total map from names to what the cells hold.
pub struct RegisterFile {
    cells: [Register; 19],
}

impl View for RegisterFile {
    type V = Map<RegisterName, RegisterData>;

    closed spec fn view(&self) -> Map<RegisterName, RegisterData> {
        Map::new(|name: RegisterName| true, |name: RegisterName| self.cells@[name.spec_index()].data)
    }
}

/// The register file before the first instruction.
pub open spec fn initial_registers() -> Map<RegisterName, RegisterData> {
    Map::new(|name: RegisterName| true, |name: RegisterName| name.initial_data())
}

impl RegisterFile {
    /// Every name has a cell.
    pub broadcast proof fn lemma_total(&self, name: RegisterName)
        ensures
            #[trigger] self@.contains_key(name),
    {
    }

    /// The register file before the first instruction.
    pub fn new() -> (file: Self)
        ensures
            file@ == initial_registers(),
    {
        let zero = Register::new();
        let file = RegisterFile {
            cells: [
                zero,
                zero,
                zero,
                zero,
                zero,
                zero,
                zero,
                zero,
                Register { data: RegisterData::Pointer(0) },
                Register { data: RegisterData::Pointer(0) },
                Register { data: RegisterData::Pointer(1) },
                zero,
                zero,
                zero,
                zero,
                zero,
                zero,
                zero,
                zero,
            ],
        };
        assert(file@ =~= initial_registers());
        file
    }

    /// The cell of `name`.
    pub fn get(&self, name: RegisterName) -> (register: Register)
        ensures
            register.data == self@[name],
    {
        self.cells[name.index()]
    }

    /// Overwrites the cell of `name`.
    pub fn set(&mut self, name: RegisterName, data: RegisterData)
        ensures
            final(self)@ == old(self)@.insert(name, data),
    {
        self.cells[name.index()] = Register { data };
        assert(self@ =~= old(self)@.insert(name, data));
    }
}

} // verus!

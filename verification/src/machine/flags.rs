use vstd::prelude::*;

verus! {

/// The condition codes of the machine.
#[derive(Clone, Copy, Debug, PartialEq, Eq, Structural)]
pub enum Flag {
    /// Carry
    CF,
    /// Zero
    ZF,
    /// Sign
    SF,
    /// Overflow
    OF,
}

impl Flag {
    /// The bit that holds this flag in the flags register.
    pub open spec fn spec_mask(self) -> u32 {
        match self {
            Flag::CF => 0b1u32,
            Flag::ZF => 0b1000000u32,
            Flag::SF => 0b10000000u32,
            Flag::OF => 0b100000000000u32,
        }
    }

    /// Computes [`spec_mask`](Self::spec_mask).
    #[verifier::when_used_as_spec(spec_mask)]
    pub fn mask(self) -> (m: u32)
        ensures
            m == self.spec_mask(),
    {
        match self {
            Flag::CF => 0b1u32,
            Flag::ZF => 0b1000000u32,
            Flag::SF => 0b10000000u32,
            Flag::OF => 0b100000000000u32,
        }
    }
}

/// The flags register: a bitset of [`Flag`]s.
///
/// Its view is the set of the flags that are raised.
pub struct Flags {
    data: u32,
}

impl View for Flags {
    type V = Set<Flag>;

    closed spec fn view(&self) -> Set<Flag> {
        Set::new(|flag: Flag| self.data & flag.spec_mask() != 0)
    }
}

impl Flags {
    /// A flags register with every flag cleared.
    pub fn new() -> (flags: Self)
        ensures
            flags@ == Set::<Flag>::empty(),
    {
        let flags = Flags { data: 0 };
        assert forall|f: Flag| !flags@.contains(f) by {
            let m = f.spec_mask();
            assert(0u32 & m == 0) by (bit_vector);
        }
        assert(flags@ =~= Set::<Flag>::empty());
        flags
    }

    /// Whether `flag` is raised.
    pub fn get(&self, flag: Flag) -> (raised: bool)
        ensures
            raised == self@.contains(flag),
    {
        self.data & flag.mask() != 0
    }

    /// Raises `flag` and leaves the others as they were.
    pub fn set(&mut self, flag: Flag)
        ensures
            final(self)@ == old(self)@.insert(flag),
    {
        let ghost d = self.data;
        let m = flag.mask();
        self.data = self.data | m;
        assert forall|f: Flag| self@.contains(f) == (f == flag || old(self)@.contains(f)) by {
            let k = f.spec_mask();
            assert(k != 0 ==> (d | k) & k != 0) by (bit_vector);
            assert(k != m && (k == 1 || k == 64 || k == 128 || k == 2048) && (m == 1 || m == 64
                || m == 128 || m == 2048) ==> ((d | m) & k != 0) == (d & k != 0)) by (bit_vector);
        }
        assert(self@ =~= old(self)@.insert(flag));
    }

    /// Clears `flag` and leaves the others as they were.
    pub fn unset(&mut self, flag: Flag)
        ensures
            final(self)@ == old(self)@.remove(flag),
    {
        let ghost d = self.data;
        let m = flag.mask();
        self.data = self.data & !m;
        assert forall|f: Flag| self@.contains(f) == (f != flag && old(self)@.contains(f)) by {
            let k = f.spec_mask();
            assert((d & !k) & k == 0) by (bit_vector);
            assert(k != m && (k == 1 || k == 64 || k == 128 || k == 2048) && (m == 1 || m == 64
                || m == 128 || m == 2048) ==> ((d & !m) & k != 0) == (d & k != 0)) by (bit_vector);
        }
        assert(self@ =~= old(self)@.remove(flag));
    }
}

} // verus!

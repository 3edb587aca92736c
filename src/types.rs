use vstd::prelude::*;

verus! {

/// A 20-byte account identifier, held as three big-endian parts:
/// bytes 0..4 in `hi`, bytes 4..12 in `mid`, bytes 12..20 in `lo`.
#[derive(Clone, Copy, Debug, PartialEq, Eq, Structural)]
pub struct Address {
    pub hi: u32,
    pub mid: u64,
    pub lo: u64,
}

impl Address {
    /// The address as a number below 2^160.
    pub open spec fn value(self) -> nat {
        self.hi as nat * 0x1_0000_0000_0000_0000_0000_0000_0000_0000 + self.mid as nat
            * 0x1_0000_0000_0000_0000 + self.lo as nat
    }

    /// The all-zero address, which the execution engine uses as its default caller.
    pub fn zero() -> (r: Address)
        ensures
            r.value() == 0,
    {
        Address { hi: 0, mid: 0, lo: 0 }
    }
}

/// A 256-bit unsigned integer (balances, values, storage keys and storage values),
/// held as four little-endian 64-bit limbs.
#[derive(Clone, Copy, Debug, PartialEq, Eq, Structural)]
pub struct Word {
    pub l0: u64,
    pub l1: u64,
    pub l2: u64,
    pub l3: u64,
}

pub open spec fn limb_base() -> nat {
    0x1_0000_0000_0000_0000
}

impl Word {
    /// The number this word stands for.
    pub open spec fn value(self) -> nat {
        self.l0 as nat + limb_base() * (self.l1 as nat + limb_base() * (self.l2 as nat
            + limb_base() * self.l3 as nat))
    }

    pub fn zero() -> (r: Word)
        ensures
            r.value() == 0,
    {
        Word { l0: 0, l1: 0, l2: 0, l3: 0 }
    }

    /// A word holding a 128-bit integer.
    pub fn from_u128(x: u128) -> (r: Word)
        ensures
            r.value() == x as nat,
    {
        let lo: u64 = (x % 0x1_0000_0000_0000_0000) as u64;
        let hi: u64 = (x / 0x1_0000_0000_0000_0000) as u64;
        let r = Word { l0: lo, l1: hi, l2: 0, l3: 0 };
        assert(r.value() == lo as nat + limb_base() * hi as nat) by (nonlinear_arith)
            requires
                r.l2 == 0,
                r.l3 == 0,
                r.l0 == lo,
                r.l1 == hi,
        ;
        assert(x as nat == lo as nat + limb_base() * hi as nat) by (nonlinear_arith)
            requires
                lo == x % 0x1_0000_0000_0000_0000,
                hi == x / 0x1_0000_0000_0000_0000,
        ;
        r
    }
}

} // verus!

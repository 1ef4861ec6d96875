//! The register file: eight general-purpose registers, the program counter,
//! and the condition-flag register.

use vstd::prelude::*;

verus! {

/// Address the program counter starts at.
pub const PC_START: u16 = 0x3000;

/// Condition flag: the last register write was strictly positive.
pub const FL_POS: u16 = 1;

/// Condition flag: the last register write was zero.
pub const FL_ZRO: u16 = 2;

/// Condition flag: the last register write had bit 15 set (negative).
pub const FL_NEG: u16 = 4;

/// The register file. Registers are indexed 0-9: 0-7 are the
/// general-purpose registers, 8 is the program counter, 9 the
/// condition-flag register.
#[derive(Clone, Copy, PartialEq, Eq, Structural, Debug)]
pub struct Registers {
    pub r0: u16,
    pub r1: u16,
    pub r2: u16,
    pub r3: u16,
    pub r4: u16,
    pub r5: u16,
    pub r6: u16,
    pub r7: u16,
    pub pc: u16,
    pub cond: u16,
}

impl Registers {
    /// The register with index `i`.
    pub open spec fn reg(self, i: int) -> u16 {
        if i == 0 {
            self.r0
        } else if i == 1 {
            self.r1
        } else if i == 2 {
            self.r2
        } else if i == 3 {
            self.r3
        } else if i == 4 {
            self.r4
        } else if i == 5 {
            self.r5
        } else if i == 6 {
            self.r6
        } else if i == 7 {
            self.r7
        } else if i == 8 {
            self.pc
        } else {
            self.cond
        }
    }
}

/// `regs` with the register of index `i` replaced by `v`.
pub open spec fn with_reg(regs: Registers, i: int, v: u16) -> Registers {
    Registers {
        r0: if i == 0 { v } else { regs.r0 },
        r1: if i == 1 { v } else { regs.r1 },
        r2: if i == 2 { v } else { regs.r2 },
        r3: if i == 3 { v } else { regs.r3 },
        r4: if i == 4 { v } else { regs.r4 },
        r5: if i == 5 { v } else { regs.r5 },
        r6: if i == 6 { v } else { regs.r6 },
        r7: if i == 7 { v } else { regs.r7 },
        pc: if i == 8 { v } else { regs.pc },
        cond: if i == 9 { v } else { regs.cond },
    }
}

/// The condition flag describing `value`: zero, negative (bit 15 set),
/// or positive, in that priority order.
pub open spec fn flag_for(value: u16) -> u16 {
    if value == 0 {
        FL_ZRO
    } else if value >= 0x8000 {
        FL_NEG
    } else {
        FL_POS
    }
}

/// After any condition-flag update, exactly one of the three flags is set,
/// and it matches the zero-ness and the sign bit of the written value.
pub proof fn lemma_flag_exclusive(value: u16)
    ensures
        flag_for(value) == FL_POS || flag_for(value) == FL_ZRO || flag_for(value) == FL_NEG,
        (flag_for(value) == FL_ZRO) <==> (value == 0),
        (flag_for(value) == FL_NEG) <==> (value != 0 && (value >> 15) & 1 == 1),
        (flag_for(value) == FL_POS) <==> (value != 0 && (value >> 15) & 1 == 0),
{
    assert(((value >> 15) & 1 == 1) == (value >= 0x8000) && (value >> 15) & 1 < 2) by (bit_vector);
}

/// Reading back a written register yields the written value; every other
/// register is untouched.
pub proof fn lemma_with_reg_reg(regs: Registers, i: int, v: u16)
    requires
        0 <= i < 10,
    ensures
        with_reg(regs, i, v).reg(i) == v,
        forall|j: int| 0 <= j < 10 && j != i ==> with_reg(regs, i, v).reg(j) == regs.reg(j),
{
}

impl Registers {
    /// A fresh register file: every register zero, the program counter at
    /// `PC_START`, no condition flag set yet.
    pub fn new() -> (regs: Registers)
        ensures
            regs == (Registers {
                r0: 0,
                r1: 0,
                r2: 0,
                r3: 0,
                r4: 0,
                r5: 0,
                r6: 0,
                r7: 0,
                pc: PC_START,
                cond: 0,
            }),
    {
        Registers {
            r0: 0,
            r1: 0,
            r2: 0,
            r3: 0,
            r4: 0,
            r5: 0,
            r6: 0,
            r7: 0,
            pc: PC_START,
            cond: 0,
        }
    }

    /// Write `value` into the register of index `index`. An index outside
    /// 0-9 is a programming error, ruled out by the precondition.
    pub fn update(&mut self, index: u16, value: u16)
        requires
            index < 10,
        ensures
            *final(self) == with_reg(*old(self), index as int, value),
    {
        match index {
            0 => self.r0 = value,
            1 => self.r1 = value,
            2 => self.r2 = value,
            3 => self.r3 = value,
            4 => self.r4 = value,
            5 => self.r5 = value,
            6 => self.r6 = value,
            7 => self.r7 = value,
            8 => self.pc = value,
            9 => self.cond = value,
            _ => {},
        }
    }

    /// Read the register of index `index`.
    pub fn get(&self, index: u16) -> (r: u16)
        requires
            index < 10,
        ensures
            r == self.reg(index as int),
    {
        match index {
            0 => self.r0,
            1 => self.r1,
            2 => self.r2,
            3 => self.r3,
            4 => self.r4,
            5 => self.r5,
            6 => self.r6,
            7 => self.r7,
            8 => self.pc,
            _ => self.cond,
        }
    }

    /// Set the condition-flag register from the value currently held by
    /// the register of index `r`: ZRO if zero, NEG if bit 15 is set,
    /// POS otherwise.
    pub fn update_r_cond_register(&mut self, r: u16)
        requires
            r < 10,
        ensures
            *final(self) == with_reg(*old(self), 9, flag_for(old(self).reg(r as int))),
    {
        let v = self.get(r);
        proof {
            assert(((v >> 15) != 0) == (v >= 0x8000)) by (bit_vector);
        }
        if v == 0 {
            self.update(9, FL_ZRO);
        } else if (v >> 15) != 0 {
            self.update(9, FL_NEG);
        } else {
            self.update(9, FL_POS);
        }
    }
}

} // verus!

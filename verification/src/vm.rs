//! The machine: a flat 64K word memory with a memory-mapped keyboard,
//! the register file, and the two console streams modelled as byte
//! sequences (pending input, produced output).

use vstd::prelude::*;

use crate::register::Registers;

verus! {

/// Number of 16-bit words in memory; addresses run 0x0000-0xFFFF.
pub const MEMORY_SIZE: usize = 0x10000;

/// Address of the keyboard status register: reading it polls the input
/// stream as a side effect.
pub const KBSR_ADDR: u16 = 0xFE00;

/// Address of the keyboard data register: the poll stores the pending
/// byte here.
pub const KBDR_ADDR: u16 = 0xFE02;

/// The two memory-mapped device registers.
#[derive(Clone, Copy, PartialEq, Eq, Structural, Debug)]
pub enum MemoryMappedReg {
    /// Keyboard status: bit 15 reports whether a key is pending.
    Kbsr,
    /// Keyboard data: the last polled byte, zero-extended.
    Kbdr,
}

impl MemoryMappedReg {
    /// The memory address the device register is mapped at.
    pub fn address(self) -> (a: u16)
        ensures
            a == (match self {
                MemoryMappedReg::Kbsr => KBSR_ADDR,
                MemoryMappedReg::Kbdr => KBDR_ADDR,
            }),
    {
        match self {
            MemoryMappedReg::Kbsr => KBSR_ADDR,
            MemoryMappedReg::Kbdr => KBDR_ADDR,
        }
    }
}

/// The machine state as mathematics: memory contents, the register file,
/// and the two console streams.
pub struct VmState {
    pub mem: Seq<u16>,
    pub regs: Registers,
    pub input: Seq<u8>,
    pub output: Seq<u8>,
}

impl VmState {
    /// Well-formedness: the memory covers the whole 16-bit address space.
    pub open spec fn inv(self) -> bool {
        self.mem.len() == MEMORY_SIZE
    }
}

/// The virtual machine. `input` holds the console bytes not yet consumed,
/// oldest first; `output` holds every console byte written so far.
pub struct VM {
    pub memory: Vec<u16>,
    pub registers: Registers,
    pub input: Vec<u8>,
    pub output: Vec<u8>,
}

impl View for VM {
    type V = VmState;

    open spec fn view(&self) -> VmState {
        VmState {
            mem: self.memory@,
            regs: self.registers,
            input: self.input@,
            output: self.output@,
        }
    }
}

/// The memory after a read at `addr`. Reading the keyboard status address
/// polls the input stream: a pending non-zero byte sets bit 15 of the
/// status cell and lands, zero-extended, in the data cell; otherwise the
/// status cell is cleared. Every other address is plain storage.
pub open spec fn mem_after_read(mem: Seq<u16>, input: Seq<u8>, addr: u16) -> Seq<u16> {
    if addr == KBSR_ADDR {
        if input.len() > 0 && input[0] != 0 {
            mem.update(KBSR_ADDR as int, 0x8000).update(KBDR_ADDR as int, input[0] as u16)
        } else {
            mem.update(KBSR_ADDR as int, 0)
        }
    } else {
        mem
    }
}

/// The pending input after a read at `addr`: the poll at the keyboard
/// status address consumes one byte, if any; other reads consume nothing.
pub open spec fn input_after_read(input: Seq<u8>, addr: u16) -> Seq<u8> {
    if addr == KBSR_ADDR && input.len() > 0 {
        input.drop_first()
    } else {
        input
    }
}

/// The word a read at `addr` returns: the cell's content after any poll.
pub open spec fn read_value(mem: Seq<u16>, input: Seq<u8>, addr: u16) -> u16 {
    mem_after_read(mem, input, addr)[addr as int]
}

/// A byte stream is a prefix of itself.
pub proof fn lemma_prefix_refl(a: Seq<u8>)
    ensures
        a.is_prefix_of(a),
{
    assert(a.subrange(0, a.len() as int) =~= a);
}

/// Appending one byte to a stream keeps every prefix of it a prefix.
pub proof fn lemma_prefix_push(a: Seq<u8>, b: Seq<u8>, x: u8)
    requires
        a.is_prefix_of(b),
    ensures
        a.is_prefix_of(b.push(x)),
{
    assert(b.push(x).subrange(0, a.len() as int) =~= a);
}

/// Appending a stream keeps every prefix of the front a prefix.
pub proof fn lemma_prefix_concat(a: Seq<u8>, b: Seq<u8>, t: Seq<u8>)
    requires
        a.is_prefix_of(b),
    ensures
        a.is_prefix_of(b + t),
{
    assert((b + t).subrange(0, a.len() as int) =~= a);
}

/// Being a prefix is transitive.
pub proof fn lemma_prefix_trans(a: Seq<u8>, b: Seq<u8>, c: Seq<u8>)
    requires
        a.is_prefix_of(b),
        b.is_prefix_of(c),
    ensures
        a.is_prefix_of(c),
{
    assert(c.subrange(0, a.len() as int) =~= a);
}

impl VM {
    /// Well-formedness of the executable machine.
    pub open spec fn wf(self) -> bool {
        self@.inv()
    }

    /// A fresh machine: memory zeroed, registers fresh, both console
    /// streams empty.
    pub fn new() -> (vm: VM)
        ensures
            vm.wf(),
            forall|a: int| 0 <= a < MEMORY_SIZE ==> vm@.mem[a] == 0,
            vm@.regs == (Registers {
                r0: 0,
                r1: 0,
                r2: 0,
                r3: 0,
                r4: 0,
                r5: 0,
                r6: 0,
                r7: 0,
                pc: crate::register::PC_START,
                cond: 0,
            }),
            vm@.input == Seq::<u8>::empty(),
            vm@.output == Seq::<u8>::empty(),
    {
        let mut memory: Vec<u16> = Vec::new();
        let mut i: usize = 0;
        while i < MEMORY_SIZE
            invariant
                i <= MEMORY_SIZE,
                memory@.len() == i,
                forall|a: int| 0 <= a < i ==> memory@[a] == 0,
            decreases MEMORY_SIZE - i,
        {
            memory.push(0);
            i += 1;
        }
        VM { memory, registers: Registers::new(), input: Vec::new(), output: Vec::new() }
    }

    /// Read the word at `address`. At the keyboard status address the
    /// read first polls the input stream (see `mem_after_read`); the
    /// returned word is the cell's content after that poll.
    pub fn read_memory(&mut self, address: u16) -> (r: u16)
        requires
            old(self).wf(),
        ensures
            final(self).wf(),
            final(self)@.regs == old(self)@.regs,
            final(self)@.output == old(self)@.output,
            final(self)@.mem == mem_after_read(old(self)@.mem, old(self)@.input, address),
            final(self)@.input == input_after_read(old(self)@.input, address),
            r == read_value(old(self)@.mem, old(self)@.input, address),
    {
        if address == KBSR_ADDR {
            self.handle_keyboard();
        }
        self.memory[address as usize]
    }

    /// Poll the console: consume one pending byte, if any, and refresh the
    /// keyboard status and data cells.
    fn handle_keyboard(&mut self)
        requires
            old(self).wf(),
        ensures
            final(self).wf(),
            final(self)@.regs == old(self)@.regs,
            final(self)@.output == old(self)@.output,
            final(self)@.mem == mem_after_read(old(self)@.mem, old(self)@.input, KBSR_ADDR),
            final(self)@.input == input_after_read(old(self)@.input, KBSR_ADDR),
    {
        if self.input.len() > 0 {
            let b = self.input.remove(0);
            proof {
                assert(self.input@ =~= old(self).input@.drop_first());
            }
            if b != 0 {
                // bit 15 of the status cell reports the pending key
                self.write_memory(KBSR_ADDR as usize, 0x8000);
                self.write_memory(KBDR_ADDR as usize, b as u16);
            } else {
                self.write_memory(KBSR_ADDR as usize, 0);
            }
        } else {
            self.write_memory(KBSR_ADDR as usize, 0);
        }
    }

    /// Write `value` to the word at `address`; plain storage, no side
    /// effects.
    pub fn write_memory(&mut self, address: usize, value: u16)
        requires
            old(self).wf(),
            address < MEMORY_SIZE,
        ensures
            final(self).wf(),
            final(self)@.mem == old(self)@.mem.update(address as int, value),
            final(self)@.regs == old(self)@.regs,
            final(self)@.input == old(self)@.input,
            final(self)@.output == old(self)@.output,
    {
        self.memory[address] = value;
    }
}

} // verus!

//! Instruction decoding and the sixteen opcode handlers. Every instruction
//! is one 16-bit word: the top four bits select the operation, the rest
//! hold operands. Each handler's effect on the machine is captured by a
//! `*_post` relation between the state before and after.

use vstd::prelude::*;

use crate::register::{Registers, with_reg, flag_for, FL_ZRO};
use crate::vm::{VM, VmState, mem_after_read, input_after_read, KBSR_ADDR, KBDR_ADDR};

verus! {

/// The sixteen operations, selected by bits [15:12] of the instruction.
/// RTI and RES decode successfully but are unimplemented no-ops.
#[derive(Clone, Copy, PartialEq, Eq, Structural, Debug)]
pub enum OpCode {
    /// branch
    BR,
    /// add
    ADD,
    /// load
    LD,
    /// store
    ST,
    /// jump register
    JSR,
    /// bitwise and
    AND,
    /// load register
    LDR,
    /// store register
    STR,
    /// unused
    RTI,
    /// bitwise not
    NOT,
    /// load indirect
    LDI,
    /// store indirect
    STI,
    /// jump
    JMP,
    /// reserved (unused)
    RES,
    /// load effective address
    LEA,
    /// execute trap
    TRAP,
}

/// The six software traps, selected by the low byte of a TRAP instruction.
#[derive(Clone, Copy, PartialEq, Eq, Structural, Debug)]
pub enum TrapCode {
    /// read one byte from the console into R0
    Getc,
    /// write the low byte of R0 to the console
    Out,
    /// write the zero-terminated string of words at R0, one character per word
    Puts,
    /// prompt, then read one byte from the console into R0
    In,
    /// write the zero-terminated packed string at R0, two characters per word
    Putsp,
    /// stop the machine
    Halt,
}

/// How a run ends. `Halted` and `InvalidTrap` are the two distinguished
/// exit paths of the trap subsystem. `OutOfInput` reports a blocking
/// console read that found the input stream exhausted; the faulting
/// instruction is left to be retried, so an embedder may either supply a
/// byte and resume or treat the exhaustion as a fatal I/O failure.
#[derive(Clone, Copy, PartialEq, Eq, Structural, Debug)]
pub enum Termination {
    /// the HALT trap was executed
    Halted,
    /// a TRAP instruction carried an unknown trap vector
    InvalidTrap,
    /// a blocking console read found no pending byte
    OutOfInput,
}

/// Sign extension: interpret the low `bit_count` bits of `x` as a
/// two's-complement number and widen it to 16 bits.
pub open spec fn sext(x: u16, bit_count: u16) -> u16
    recommends
        1 <= bit_count <= 15,
{
    if (x >> ((bit_count - 1) as u16)) & 1 != 0 {
        x | (0xFFFFu16 << bit_count)
    } else {
        x
    }
}

/// 16-bit wraparound addition, the architecture's intended arithmetic.
pub open spec fn wrap_add(a: u16, b: u16) -> u16 {
    ((a + b) % 0x10000) as u16
}

/// The program counter stepped back one word, with wraparound.
pub open spec fn wrap_dec(pc: u16) -> u16 {
    if pc == 0 {
        0xFFFF
    } else {
        (pc - 1) as u16
    }
}

/// Destination-register field, bits [11:9]. The same bits hold the source
/// register of the store instructions and the condition mask of BR.
pub open spec fn dr_of(i: u16) -> u16 {
    (i >> 9) & 0x7
}

/// First source-register field, bits [8:6]; also the base register of
/// JMP, JSR (short form), LDR and STR.
pub open spec fn sr1_of(i: u16) -> u16 {
    (i >> 6) & 0x7
}

/// Second source-register field, bits [2:0].
pub open spec fn sr2_of(i: u16) -> u16 {
    i & 0x7
}

/// Bit [5]: immediate mode for ADD and AND.
pub open spec fn imm_mode(i: u16) -> bool {
    (i >> 5) & 1 == 1
}

/// The sign-extended 5-bit immediate operand.
pub open spec fn imm5_of(i: u16) -> u16 {
    sext(i & 0x1F, 5)
}

/// The sign-extended 6-bit offset of LDR and STR.
pub open spec fn off6_of(i: u16) -> u16 {
    sext(i & 0x3F, 6)
}

/// The sign-extended 9-bit program-counter offset.
pub open spec fn off9_of(i: u16) -> u16 {
    sext(i & 0x1FF, 9)
}

/// The sign-extended 11-bit offset of JSR in long form.
pub open spec fn off11_of(i: u16) -> u16 {
    sext(i & 0x7FF, 11)
}

/// Bit [11]: long (offset) form of JSR.
pub open spec fn long_mode(i: u16) -> bool {
    (i >> 11) & 1 == 1
}

/// The trap vector, the low byte of a TRAP instruction.
pub open spec fn trap_vector(i: u16) -> u16 {
    i & 0xFF
}

/// The opcode named by bits [15:12]; a 4-bit field, so decoding is total.
pub open spec fn decode(i: u16) -> OpCode {
    let code = i >> 12;
    if code == 0 {
        OpCode::BR
    } else if code == 1 {
        OpCode::ADD
    } else if code == 2 {
        OpCode::LD
    } else if code == 3 {
        OpCode::ST
    } else if code == 4 {
        OpCode::JSR
    } else if code == 5 {
        OpCode::AND
    } else if code == 6 {
        OpCode::LDR
    } else if code == 7 {
        OpCode::STR
    } else if code == 8 {
        OpCode::RTI
    } else if code == 9 {
        OpCode::NOT
    } else if code == 10 {
        OpCode::LDI
    } else if code == 11 {
        OpCode::STI
    } else if code == 12 {
        OpCode::JMP
    } else if code == 13 {
        OpCode::RES
    } else if code == 14 {
        OpCode::LEA
    } else {
        OpCode::TRAP
    }
}

/// The trap named by the trap vector, if it is one of the six known ones.
pub open spec fn trap_code_of(i: u16) -> Option<TrapCode> {
    let tv = trap_vector(i);
    if tv == 0x20 {
        Some(TrapCode::Getc)
    } else if tv == 0x21 {
        Some(TrapCode::Out)
    } else if tv == 0x22 {
        Some(TrapCode::Puts)
    } else if tv == 0x23 {
        Some(TrapCode::In)
    } else if tv == 0x24 {
        Some(TrapCode::Putsp)
    } else if tv == 0x25 {
        Some(TrapCode::Halt)
    } else {
        None
    }
}

/// Ranges of the bit fields an instruction word can carry.
pub proof fn lemma_field_bounds(i: u16)
    by (bit_vector)
    ensures
        (i >> 9) & 0x7 < 8,
        (i >> 6) & 0x7 < 8,
        i & 0x7 < 8,
        (i >> 5) & 1 < 2,
        (i >> 11) & 1 < 2,
        i & 0x1F < 32,
        i & 0x3F < 64,
        i & 0x1FF < 512,
        i & 0x7FF < 2048,
        i >> 12 < 16,
        i & 0xFF < 256,
{
}

/// Adding two 16-bit words in a 32-bit intermediate and truncating is
/// exactly 16-bit wraparound addition.
pub proof fn lemma_u32_sum_truncates(a: u16, b: u16)
    by (bit_vector)
    ensures
        (a as u32 + b as u32) as u16 == ((a + b) % 0x10000) as u16,
{
}

/// The two machine states agree in every component: memory, registers
/// and both console streams.
pub open spec fn same_state(pre: VmState, post: VmState) -> bool {
    &&& post.mem == pre.mem
    &&& post.regs == pre.regs
    &&& post.input == pre.input
    &&& post.output == pre.output
}

/// The register file after an instruction writes `v` into destination
/// `dr` and refreshes the condition flags from that value.
pub open spec fn writes_dest(pre: Registers, post: Registers, dr: int, v: u16) -> bool {
    post == with_reg(with_reg(pre, dr, v), 9, flag_for(v))
}

/// The value ADD computes: first source plus either the sign-extended
/// immediate or the second source, with 16-bit wraparound.
pub open spec fn add_result(i: u16, regs: Registers) -> u16 {
    if imm_mode(i) {
        wrap_add(regs.reg(sr1_of(i) as int), imm5_of(i))
    } else {
        wrap_add(regs.reg(sr1_of(i) as int), regs.reg(sr2_of(i) as int))
    }
}

/// Effect of ADD.
pub open spec fn add_post(i: u16, pre: VmState, post: VmState) -> bool {
    &&& post.mem == pre.mem
    &&& post.input == pre.input
    &&& post.output == pre.output
    &&& writes_dest(pre.regs, post.regs, dr_of(i) as int, add_result(i, pre.regs))
}

/// The value AND computes.
pub open spec fn and_result(i: u16, regs: Registers) -> u16 {
    if imm_mode(i) {
        regs.reg(sr1_of(i) as int) & imm5_of(i)
    } else {
        regs.reg(sr1_of(i) as int) & regs.reg(sr2_of(i) as int)
    }
}

/// Effect of AND.
pub open spec fn and_post(i: u16, pre: VmState, post: VmState) -> bool {
    &&& post.mem == pre.mem
    &&& post.input == pre.input
    &&& post.output == pre.output
    &&& writes_dest(pre.regs, post.regs, dr_of(i) as int, and_result(i, pre.regs))
}

/// Effect of NOT: bitwise complement of the source register.
pub open spec fn not_post(i: u16, pre: VmState, post: VmState) -> bool {
    &&& post.mem == pre.mem
    &&& post.input == pre.input
    &&& post.output == pre.output
    &&& writes_dest(pre.regs, post.regs, dr_of(i) as int, !pre.regs.reg(sr1_of(i) as int))
}

/// Effect of BR: if the condition mask meets the current flags, the
/// program counter moves by the sign-extended offset; otherwise nothing
/// happens. Flags are never updated.
pub open spec fn br_post(i: u16, pre: VmState, post: VmState) -> bool {
    &&& post.mem == pre.mem
    &&& post.input == pre.input
    &&& post.output == pre.output
    &&& post.regs == (if dr_of(i) & pre.regs.cond != 0 {
        with_reg(pre.regs, 8, wrap_add(pre.regs.pc, off9_of(i)))
    } else {
        pre.regs
    })
}

/// Effect of JMP: the program counter becomes the base register's value.
pub open spec fn jmp_post(i: u16, pre: VmState, post: VmState) -> bool {
    &&& post.mem == pre.mem
    &&& post.input == pre.input
    &&& post.output == pre.output
    &&& post.regs == with_reg(pre.regs, 8, pre.regs.reg(sr1_of(i) as int))
}

/// Effect of JSR: R7 first receives the incremented program counter; the
/// program counter then moves by the 11-bit offset (long form) or to the
/// base register's value read after the R7 write (short form).
pub open spec fn jsr_post(i: u16, pre: VmState, post: VmState) -> bool {
    let saved = with_reg(pre.regs, 7, pre.regs.pc);
    let target = if long_mode(i) {
        wrap_add(pre.regs.pc, off11_of(i))
    } else {
        saved.reg(sr1_of(i) as int)
    };
    &&& post.mem == pre.mem
    &&& post.input == pre.input
    &&& post.output == pre.output
    &&& post.regs == with_reg(saved, 8, target)
}

/// Effect of LD: load the word at PC plus offset (a read, so the keyboard
/// poll applies) into the destination and refresh the flags.
pub open spec fn ld_post(i: u16, pre: VmState, post: VmState) -> bool {
    let a = wrap_add(pre.regs.pc, off9_of(i));
    let m1 = mem_after_read(pre.mem, pre.input, a);
    &&& post.mem == m1
    &&& post.input == input_after_read(pre.input, a)
    &&& post.output == pre.output
    &&& writes_dest(pre.regs, post.regs, dr_of(i) as int, m1[a as int])
}

/// Effect of LDI: the word at PC plus offset is itself an address; load
/// the word found there. Both reads go through the keyboard poll.
pub open spec fn ldi_post(i: u16, pre: VmState, post: VmState) -> bool {
    let a = wrap_add(pre.regs.pc, off9_of(i));
    let m1 = mem_after_read(pre.mem, pre.input, a);
    let in1 = input_after_read(pre.input, a);
    let p = m1[a as int];
    let m2 = mem_after_read(m1, in1, p);
    &&& post.mem == m2
    &&& post.input == input_after_read(in1, p)
    &&& post.output == pre.output
    &&& writes_dest(pre.regs, post.regs, dr_of(i) as int, m2[p as int])
}

/// Effect of LDR: load the word at base register plus 6-bit offset.
pub open spec fn ldr_post(i: u16, pre: VmState, post: VmState) -> bool {
    let a = wrap_add(pre.regs.reg(sr1_of(i) as int), off6_of(i));
    let m1 = mem_after_read(pre.mem, pre.input, a);
    &&& post.mem == m1
    &&& post.input == input_after_read(pre.input, a)
    &&& post.output == pre.output
    &&& writes_dest(pre.regs, post.regs, dr_of(i) as int, m1[a as int])
}

/// Effect of LEA: the destination receives the effective address itself,
/// not memory contents; flags are refreshed, memory is untouched.
pub open spec fn lea_post(i: u16, pre: VmState, post: VmState) -> bool {
    &&& post.mem == pre.mem
    &&& post.input == pre.input
    &&& post.output == pre.output
    &&& writes_dest(pre.regs, post.regs, dr_of(i) as int, wrap_add(pre.regs.pc, off9_of(i)))
}

/// Effect of ST: store the source register at PC plus offset. Stores
/// never update flags and never poll the keyboard.
pub open spec fn st_post(i: u16, pre: VmState, post: VmState) -> bool {
    &&& post.mem == pre.mem.update(wrap_add(pre.regs.pc, off9_of(i)) as int, pre.regs.reg(dr_of(i) as int))
    &&& post.regs == pre.regs
    &&& post.input == pre.input
    &&& post.output == pre.output
}

/// Effect of STI: the word read at PC plus offset (a read, so the poll
/// applies) names the cell that receives the source register.
pub open spec fn sti_post(i: u16, pre: VmState, post: VmState) -> bool {
    let a = wrap_add(pre.regs.pc, off9_of(i));
    let m1 = mem_after_read(pre.mem, pre.input, a);
    let t = m1[a as int];
    &&& post.mem == m1.update(t as int, pre.regs.reg(dr_of(i) as int))
    &&& post.regs == pre.regs
    &&& post.input == input_after_read(pre.input, a)
    &&& post.output == pre.output
}

/// Effect of STR: store the source register at base plus 6-bit offset.
pub open spec fn str_post(i: u16, pre: VmState, post: VmState) -> bool {
    &&& post.mem == pre.mem.update(
        wrap_add(pre.regs.reg(sr1_of(i) as int), off6_of(i)) as int,
        pre.regs.reg(dr_of(i) as int),
    )
    &&& post.regs == pre.regs
    &&& post.input == pre.input
    &&& post.output == pre.output
}

/// The prompt the IN trap writes before reading a byte.
pub open spec fn input_prompt() -> Seq<u8> {
    seq![
        0x45u8, 0x6E, 0x74, 0x65, 0x72, 0x20, 0x61, 0x20, 0x20, 0x63, 0x68, 0x61, 0x72, 0x61,
        0x63, 0x74, 0x65, 0x72, 0x20, 0x3A, 0x20,
    ]
}

/// The character a string word contributes: its low byte.
pub open spec fn low_byte(c: u16) -> u8 {
    c as u8
}

/// Offset of the first zero word at or after probe offset `k` in the
/// cyclic scan that starts at `start`, provided the scan meets no keyboard
/// status cell first; `None` if it would cross that cell (whose read has
/// side effects) or wrap a full cycle.
pub open spec fn scan_nul_from(mem: Seq<u16>, start: u16, k: nat) -> Option<nat>
    decreases 0x10000 - k,
{
    if k >= 0x10000 {
        None
    } else {
        let a = wrap_add(start, k as u16);
        if a == KBSR_ADDR {
            None
        } else if mem[a as int] == 0 {
            Some(k)
        } else {
            scan_nul_from(mem, start, k + 1)
        }
    }
}

/// Offset of the zero word terminating the string at `start`, when the
/// scan reaches one without touching the keyboard status cell.
pub open spec fn nul_offset(mem: Seq<u16>, start: u16) -> Option<nat> {
    scan_nul_from(mem, start, 0)
}

/// The first `n` low bytes of the string at `start`.
pub open spec fn puts_bytes(mem: Seq<u16>, start: u16, n: nat) -> Seq<u8>
    decreases n,
{
    if n == 0 {
        Seq::empty()
    } else {
        puts_bytes(mem, start, (n - 1) as nat).push(
            low_byte(mem[wrap_add(start, (n - 1) as u16) as int]),
        )
    }
}

/// The characters a packed-string word contributes: its low byte, then
/// its high byte when that is non-zero.
pub open spec fn word_bytes(c: u16) -> Seq<u8> {
    if (c >> 8) as u8 == 0 {
        seq![c as u8]
    } else {
        seq![c as u8, (c >> 8) as u8]
    }
}

/// The bytes of the first `n` words of the packed string at `start`.
pub open spec fn putsp_bytes(mem: Seq<u16>, start: u16, n: nat) -> Seq<u8>
    decreases n,
{
    if n == 0 {
        Seq::empty()
    } else {
        putsp_bytes(mem, start, (n - 1) as nat) + word_bytes(
            mem[wrap_add(start, (n - 1) as u16) as int],
        )
    }
}

/// A successful scan lies at or beyond its probe offset, ends on a zero
/// word, and never sits on the keyboard status cell.
pub proof fn lemma_scan_bounds(mem: Seq<u16>, start: u16, k0: nat, k: nat)
    requires
        scan_nul_from(mem, start, k0) == Some(k),
    ensures
        k0 <= k < 0x10000,
        wrap_add(start, k as u16) != KBSR_ADDR,
        mem[wrap_add(start, k as u16) as int] == 0,
    decreases 0x10000 - k0,
{
    if k0 < 0x10000 {
        let a = wrap_add(start, k0 as u16);
        if a != KBSR_ADDR && mem[a as int] != 0 {
            lemma_scan_bounds(mem, start, k0 + 1, k);
        }
    }
}

/// Wraparound increment agrees with extending a wraparound sum by one.
pub proof fn lemma_wrap_inc(a: u16, b: u16)
    by (bit_vector)
    requires
        b < 0xFFFF,
    ensures
        wrap_add(a, (b + 1) as u16) == (if wrap_add(a, b) == 0xFFFF {
            0u16
        } else {
            (wrap_add(a, b) + 1) as u16
        }),
{
}

/// What a string-printing loop may touch when its scan crosses the
/// keyboard status cell: polls may rewrite the two device cells and
/// consume input; output only grows; registers stay put.
pub open spec fn console_scan_frame(pre: VmState, post: VmState) -> bool {
    &&& post.regs == pre.regs
    &&& post.mem.len() == pre.mem.len()
    &&& (forall|a: int|
        0 <= a < post.mem.len() && a != KBSR_ADDR as int && a != KBDR_ADDR as int
            ==> post.mem[a] == pre.mem[a])
    &&& (exists|n: int| 0 <= n <= pre.input.len() && post.input == pre.input.skip(n))
    &&& pre.output.is_prefix_of(post.output)
}

/// Effect of the GETC trap: consume one input byte into R0 without
/// echoing or touching the flags; with no byte pending, step the program
/// counter back and report the exhaustion.
pub open spec fn getc_post(pre: VmState, post: VmState, r: Option<Termination>) -> bool {
    if pre.input.len() == 0 {
        &&& post.mem == pre.mem
        &&& post.input == pre.input
        &&& post.output == pre.output
        &&& post.regs == with_reg(pre.regs, 8, wrap_dec(pre.regs.pc))
        &&& r == Some(Termination::OutOfInput)
    } else {
        &&& post.mem == pre.mem
        &&& post.input == pre.input.drop_first()
        &&& post.output == pre.output
        &&& post.regs == with_reg(pre.regs, 0, pre.input[0] as u16)
        &&& r == None::<Termination>
    }
}

/// Effect of the OUT trap: the low byte of R0 goes to the console.
pub open spec fn out_post(pre: VmState, post: VmState, r: Option<Termination>) -> bool {
    &&& post.mem == pre.mem
    &&& post.input == pre.input
    &&& post.output == pre.output.push(pre.regs.r0 as u8)
    &&& post.regs == pre.regs
    &&& r == None::<Termination>
}

/// Effect of the PUTS trap: write the low bytes of the words at R0 up to
/// the terminating zero word. When that scan would read the keyboard
/// status cell, only the frame `console_scan_frame` is promised.
pub open spec fn puts_post(pre: VmState, post: VmState, r: Option<Termination>) -> bool {
    &&& r == None::<Termination>
    &&& post.regs == pre.regs
    &&& (match nul_offset(pre.mem, pre.regs.r0) {
        Some(k) => {
            &&& post.mem == pre.mem
            &&& post.input == pre.input
            &&& post.output == pre.output + puts_bytes(pre.mem, pre.regs.r0, k)
        },
        None => console_scan_frame(pre, post),
    })
}

/// Effect of the IN trap: write the prompt, then consume one input byte
/// into R0 (no echo, no flag update). With no byte pending nothing is
/// written; the program counter steps back and the exhaustion is
/// reported.
pub open spec fn in_post(pre: VmState, post: VmState, r: Option<Termination>) -> bool {
    if pre.input.len() == 0 {
        &&& post.mem == pre.mem
        &&& post.input == pre.input
        &&& post.output == pre.output
        &&& post.regs == with_reg(pre.regs, 8, wrap_dec(pre.regs.pc))
        &&& r == Some(Termination::OutOfInput)
    } else {
        &&& post.mem == pre.mem
        &&& post.input == pre.input.drop_first()
        &&& post.output == pre.output + input_prompt()
        &&& post.regs == with_reg(pre.regs, 0, pre.input[0] as u16)
        &&& r == None::<Termination>
    }
}

/// Effect of the PUTSP trap: write the packed string at R0, low byte then
/// non-zero high byte of each word, up to the terminating zero word.
pub open spec fn putsp_post(pre: VmState, post: VmState, r: Option<Termination>) -> bool {
    &&& r == None::<Termination>
    &&& post.regs == pre.regs
    &&& (match nul_offset(pre.mem, pre.regs.r0) {
        Some(k) => {
            &&& post.mem == pre.mem
            &&& post.input == pre.input
            &&& post.output == pre.output + putsp_bytes(pre.mem, pre.regs.r0, k)
        },
        None => console_scan_frame(pre, post),
    })
}

/// Effect of a TRAP instruction, by trap vector. HALT stops the machine;
/// an unknown vector stops it with the distinct `InvalidTrap` signal.
pub open spec fn trap_post(i: u16, pre: VmState, post: VmState, r: Option<Termination>) -> bool {
    match trap_code_of(i) {
        Some(TrapCode::Getc) => getc_post(pre, post, r),
        Some(TrapCode::Out) => out_post(pre, post, r),
        Some(TrapCode::Puts) => puts_post(pre, post, r),
        Some(TrapCode::In) => in_post(pre, post, r),
        Some(TrapCode::Putsp) => putsp_post(pre, post, r),
        Some(TrapCode::Halt) => same_state(pre, post) && r == Some(Termination::Halted),
        None => same_state(pre, post) && r == Some(Termination::InvalidTrap),
    }
}

/// Sign-extend the low `bit_count` bits of `x` to a full 16-bit word.
pub fn sign_extend(x: u16, bit_count: u8) -> (r: u16)
    requires
        1 <= bit_count <= 15,
    ensures
        r == sext(x, bit_count as u16),
{
    let shift: u16 = (bit_count - 1) as u16;
    if (x >> shift) & 1 != 0 {
        x | (0xFFFFu16 << (bit_count as u16))
    } else {
        x
    }
}

/// Extract the opcode from bits [15:12]. The field is four bits wide, so
/// every instruction word decodes.
pub fn get_opcode(instruction: &u16) -> (op: Option<OpCode>)
    ensures
        op == Some(decode(*instruction)),
{
    proof {
        lemma_field_bounds(*instruction);
    }
    let code = *instruction >> 12;
    match code {
        0 => Some(OpCode::BR),
        1 => Some(OpCode::ADD),
        2 => Some(OpCode::LD),
        3 => Some(OpCode::ST),
        4 => Some(OpCode::JSR),
        5 => Some(OpCode::AND),
        6 => Some(OpCode::LDR),
        7 => Some(OpCode::STR),
        8 => Some(OpCode::RTI),
        9 => Some(OpCode::NOT),
        10 => Some(OpCode::LDI),
        11 => Some(OpCode::STI),
        12 => Some(OpCode::JMP),
        13 => Some(OpCode::RES),
        14 => Some(OpCode::LEA),
        15 => Some(OpCode::TRAP),
        _ => None,
    }
}

/// Addition, in register or immediate mode, with 16-bit wraparound.
pub fn add(instruction: u16, vm: &mut VM)
    requires
        old(vm).wf(),
    ensures
        final(vm).wf(),
        add_post(instruction, old(vm)@, final(vm)@),
{
    proof {
        lemma_field_bounds(instruction);
    }
    let dr = (instruction >> 9) & 0x7;
    let sr1 = (instruction >> 6) & 0x7;
    let imm_flag = (instruction >> 5) & 0x1;

    if imm_flag == 1 {
        let imm5 = sign_extend(instruction & 0x1F, 5);
        let val: u32 = imm5 as u32 + vm.registers.get(sr1) as u32;
        proof {
            lemma_u32_sum_truncates(imm5, old(vm).registers.reg(sr1 as int));
        }
        vm.registers.update(dr, val as u16);
    } else {
        let sr2 = instruction & 0x7;
        let val: u32 = vm.registers.get(sr1) as u32 + vm.registers.get(sr2) as u32;
        proof {
            lemma_u32_sum_truncates(
                old(vm).registers.reg(sr1 as int),
                old(vm).registers.reg(sr2 as int),
            );
        }
        vm.registers.update(dr, val as u16);
    }
    proof {
        crate::register::lemma_with_reg_reg(old(vm).registers, dr as int, add_result(instruction, old(vm).registers));
    }
    vm.registers.update_r_cond_register(dr);
}

/// Bitwise AND, in register or immediate mode.
pub fn and(instruction: u16, vm: &mut VM)
    requires
        old(vm).wf(),
    ensures
        final(vm).wf(),
        and_post(instruction, old(vm)@, final(vm)@),
{
    proof {
        lemma_field_bounds(instruction);
    }
    let dr = (instruction >> 9) & 0x7;
    let sr1 = (instruction >> 6) & 0x7;
    let imm_flag = (instruction >> 5) & 0x1;

    if imm_flag == 1 {
        let imm5 = sign_extend(instruction & 0x1F, 5);
        vm.registers.update(dr, vm.registers.get(sr1) & imm5);
    } else {
        let sr2 = instruction & 0x7;
        vm.registers.update(dr, vm.registers.get(sr1) & vm.registers.get(sr2));
    }
    proof {
        crate::register::lemma_with_reg_reg(old(vm).registers, dr as int, and_result(instruction, old(vm).registers));
    }
    vm.registers.update_r_cond_register(dr);
}

/// Bitwise complement of the source register.
pub fn not(instruction: u16, vm: &mut VM)
    requires
        old(vm).wf(),
    ensures
        final(vm).wf(),
        not_post(instruction, old(vm)@, final(vm)@),
{
    proof {
        lemma_field_bounds(instruction);
    }
    let dr = (instruction >> 9) & 0x7;
    let sr1 = (instruction >> 6) & 0x7;
    vm.registers.update(dr, !vm.registers.get(sr1));
    proof {
        crate::register::lemma_with_reg_reg(old(vm).registers, dr as int, !old(vm).registers.reg(sr1 as int));
    }
    vm.registers.update_r_cond_register(dr);
}

/// Conditional branch on the condition mask in bits [11:9].
pub fn br(instruction: u16, vm: &mut VM)
    requires
        old(vm).wf(),
    ensures
        final(vm).wf(),
        br_post(instruction, old(vm)@, final(vm)@),
{
    proof {
        lemma_field_bounds(instruction);
    }
    let pc_offset = sign_extend(instruction & 0x1FF, 9);
    let cond_flag = (instruction >> 9) & 0x7;

    if cond_flag & vm.registers.cond != 0 {
        let val: u32 = vm.registers.pc as u32 + pc_offset as u32;
        proof {
            lemma_u32_sum_truncates(old(vm).registers.pc, pc_offset);
        }
        vm.registers.pc = val as u16;
    }
}

/// Unconditional jump to the base register's value; with base R7 this is
/// the conventional subroutine return.
pub fn jmp(instruction: u16, vm: &mut VM)
    requires
        old(vm).wf(),
    ensures
        final(vm).wf(),
        jmp_post(instruction, old(vm)@, final(vm)@),
{
    proof {
        lemma_field_bounds(instruction);
    }
    let base_reg = (instruction >> 6) & 0x7;
    vm.registers.pc = vm.registers.get(base_reg);
}

/// Subroutine call: save the incremented program counter in R7, then jump
/// by offset (long form) or to the base register (short form).
pub fn jsr(instruction: u16, vm: &mut VM)
    requires
        old(vm).wf(),
    ensures
        final(vm).wf(),
        jsr_post(instruction, old(vm)@, final(vm)@),
{
    proof {
        lemma_field_bounds(instruction);
    }
    let base_reg = (instruction >> 6) & 0x7;
    let long_pc_offset = sign_extend(instruction & 0x7FF, 11);
    let long_flag = (instruction >> 11) & 1;

    vm.registers.r7 = vm.registers.pc;

    if long_flag != 0 {
        let val: u32 = vm.registers.pc as u32 + long_pc_offset as u32;
        proof {
            lemma_u32_sum_truncates(old(vm).registers.pc, long_pc_offset);
        }
        vm.registers.pc = val as u16;
    } else {
        let target = vm.registers.get(base_reg);
        vm.registers.pc = target;
    }
}

/// Load the word at PC plus 9-bit offset into the destination.
pub fn ld(instruction: u16, vm: &mut VM)
    requires
        old(vm).wf(),
    ensures
        final(vm).wf(),
        ld_post(instruction, old(vm)@, final(vm)@),
{
    proof {
        lemma_field_bounds(instruction);
    }
    let dr = (instruction >> 9) & 0x7;
    let pc_offset = sign_extend(instruction & 0x1FF, 9);
    let mem: u32 = pc_offset as u32 + vm.registers.pc as u32;
    proof {
        lemma_u32_sum_truncates(old(vm).registers.pc, pc_offset);
    }
    let value = vm.read_memory(mem as u16);
    vm.registers.update(dr, value);
    proof {
        crate::register::lemma_with_reg_reg(old(vm).registers, dr as int, value);
    }
    vm.registers.update_r_cond_register(dr);
}

/// Load indirect: the word at PC plus offset names the cell to load from.
pub fn ldi(instruction: u16, vm: &mut VM)
    requires
        old(vm).wf(),
    ensures
        final(vm).wf(),
        ldi_post(instruction, old(vm)@, final(vm)@),
{
    proof {
        lemma_field_bounds(instruction);
    }
    let dr = (instruction >> 9) & 0x7;
    let pc_offset = sign_extend(instruction & 0x1FF, 9);
    let addr: u32 = pc_offset as u32 + vm.registers.pc as u32;
    proof {
        lemma_u32_sum_truncates(old(vm).registers.pc, pc_offset);
    }
    let first_read = vm.read_memory(addr as u16);
    let resulting_address = vm.read_memory(first_read);
    vm.registers.update(dr, resulting_address);
    proof {
        crate::register::lemma_with_reg_reg(old(vm).registers, dr as int, resulting_address);
    }
    vm.registers.update_r_cond_register(dr);
}

/// Load the word at base register plus 6-bit offset into the destination.
pub fn ldr(instruction: u16, vm: &mut VM)
    requires
        old(vm).wf(),
    ensures
        final(vm).wf(),
        ldr_post(instruction, old(vm)@, final(vm)@),
{
    proof {
        lemma_field_bounds(instruction);
    }
    let dr = (instruction >> 9) & 0x7;
    let base_reg = (instruction >> 6) & 0x7;
    let offset = sign_extend(instruction & 0x3F, 6);
    let val: u32 = vm.registers.get(base_reg) as u32 + offset as u32;
    proof {
        lemma_u32_sum_truncates(old(vm).registers.reg(base_reg as int), offset);
    }
    let mem_value = vm.read_memory(val as u16);
    vm.registers.update(dr, mem_value);
    proof {
        crate::register::lemma_with_reg_reg(old(vm).registers, dr as int, mem_value);
    }
    vm.registers.update_r_cond_register(dr);
}

/// Load effective address: the destination receives PC plus offset itself.
pub fn lea(instruction: u16, vm: &mut VM)
    requires
        old(vm).wf(),
    ensures
        final(vm).wf(),
        lea_post(instruction, old(vm)@, final(vm)@),
{
    proof {
        lemma_field_bounds(instruction);
    }
    let dr = (instruction >> 9) & 0x7;
    let pc_offset = sign_extend(instruction & 0x1FF, 9);
    let val: u32 = vm.registers.pc as u32 + pc_offset as u32;
    proof {
        lemma_u32_sum_truncates(old(vm).registers.pc, pc_offset);
    }
    vm.registers.update(dr, val as u16);
    proof {
        crate::register::lemma_with_reg_reg(
            old(vm).registers,
            dr as int,
            wrap_add(old(vm).registers.pc, off9_of(instruction)),
        );
    }
    vm.registers.update_r_cond_register(dr);
}

/// Store the source register at PC plus 9-bit offset.
pub fn st(instruction: u16, vm: &mut VM)
    requires
        old(vm).wf(),
    ensures
        final(vm).wf(),
        st_post(instruction, old(vm)@, final(vm)@),
{
    proof {
        lemma_field_bounds(instruction);
    }
    let sr = (instruction >> 9) & 0x7;
    let pc_offset = sign_extend(instruction & 0x1FF, 9);
    let val: u32 = vm.registers.pc as u32 + pc_offset as u32;
    proof {
        lemma_u32_sum_truncates(old(vm).registers.pc, pc_offset);
    }
    let val: u16 = val as u16;
    let value = vm.registers.get(sr);
    vm.write_memory(val as usize, value);
}

/// Store indirect: the word read at PC plus offset names the target cell.
pub fn sti(instruction: u16, vm: &mut VM)
    requires
        old(vm).wf(),
    ensures
        final(vm).wf(),
        sti_post(instruction, old(vm)@, final(vm)@),
{
    proof {
        lemma_field_bounds(instruction);
    }
    let sr = (instruction >> 9) & 0x7;
    let pc_offset = sign_extend(instruction & 0x1FF, 9);
    let val: u32 = vm.registers.pc as u32 + pc_offset as u32;
    proof {
        lemma_u32_sum_truncates(old(vm).registers.pc, pc_offset);
    }
    let val: u16 = val as u16;
    let address = vm.read_memory(val);
    let value = vm.registers.get(sr);
    vm.write_memory(address as usize, value);
}

/// Store the source register at base register plus 6-bit offset.
pub fn str(instruction: u16, vm: &mut VM)
    requires
        old(vm).wf(),
    ensures
        final(vm).wf(),
        str_post(instruction, old(vm)@, final(vm)@),
{
    proof {
        lemma_field_bounds(instruction);
    }
    let sr = (instruction >> 9) & 0x7;
    let base_reg = (instruction >> 6) & 0x7;
    let offset = sign_extend(instruction & 0x3F, 6);
    let val: u32 = vm.registers.get(base_reg) as u32 + offset as u32;
    proof {
        lemma_u32_sum_truncates(old(vm).registers.reg(base_reg as int), offset);
    }
    let val: u16 = val as u16;
    let value = vm.registers.get(sr);
    vm.write_memory(val as usize, value);
}

/// Distance of `index` from the keyboard status cell in scan order; the
/// string loops walk it down between polls.
spec fn kbsr_dist(index: u16) -> int {
    if index <= KBSR_ADDR {
        KBSR_ADDR - index
    } else {
        0x10000 + KBSR_ADDR - index
    }
}

/// Loop bookkeeping for PUTS while its scan stays clear of the keyboard
/// status cell.
spec fn puts_loop_precise(pre: VmState, cur: VmState, index: u16, j: u16, k: nat) -> bool {
    &&& j as nat <= k
    &&& index == wrap_add(pre.regs.r0, j)
    &&& scan_nul_from(pre.mem, pre.regs.r0, j as nat) == Some(k)
    &&& cur.mem == pre.mem
    &&& cur.input == pre.input
    &&& cur.output == pre.output + puts_bytes(pre.mem, pre.regs.r0, j as nat)
}

/// Loop bookkeeping for PUTSP while its scan stays clear of the keyboard
/// status cell.
spec fn putsp_loop_precise(pre: VmState, cur: VmState, index: u16, j: u16, k: nat) -> bool {
    &&& j as nat <= k
    &&& index == wrap_add(pre.regs.r0, j)
    &&& scan_nul_from(pre.mem, pre.regs.r0, j as nat) == Some(k)
    &&& cur.mem == pre.mem
    &&& cur.input == pre.input
    &&& cur.output == pre.output + putsp_bytes(pre.mem, pre.regs.r0, j as nat)
}

/// Dispatch on the trap vector in the low byte and run the trap.
pub fn trap(instruction: u16, vm: &mut VM) -> (r: Option<Termination>)
    requires
        old(vm).wf(),
    ensures
        final(vm).wf(),
        trap_post(instruction, old(vm)@, final(vm)@, r),
{
    proof {
        lemma_field_bounds(instruction);
    }
    match instruction & 0xFF {
        0x20 => {
            // Getc: one blocking byte from the console straight into R0
            if vm.input.len() == 0 {
                let pc = vm.registers.pc;
                vm.registers.pc = if pc == 0 { 0xFFFF } else { pc - 1 };
                Some(Termination::OutOfInput)
            } else {
                let b = vm.input.remove(0);
                proof {
                    assert(vm.input@ =~= old(vm).input@.drop_first());
                }
                vm.registers.r0 = b as u16;
                None
            }
        },
        0x21 => {
            // Out: the low byte of R0 as one character
            let c = vm.registers.r0 as u8;
            vm.output.push(c);
            None
        },
        0x22 => {
            // Puts: one character per word until a zero word
            let ghost pre = vm@;
            let ghost k_opt = nul_offset(pre.mem, pre.regs.r0);
            let mut index: u16 = vm.registers.r0;
            let ghost mut j: u16 = 0;
            proof {
                crate::vm::lemma_prefix_refl(pre.output);
                assert(pre.input.skip(0) =~= pre.input);
                assert(pre.output + puts_bytes(pre.mem, pre.regs.r0, 0) =~= pre.output);
                match k_opt {
                    Some(k) => lemma_scan_bounds(pre.mem, pre.regs.r0, 0, k),
                    None => {},
                }
            }
            loop
                invariant
                    vm.wf(),
                    vm@.regs == pre.regs,
                    pre.inv(),
                    console_scan_frame(pre, vm@),
                    k_opt == nul_offset(pre.mem, pre.regs.r0),
                    (k_opt matches Some(k) ==> puts_loop_precise(pre, vm@, index, j, k)),
                ensures
                    vm.wf(),
                    console_scan_frame(pre, vm@),
                    (k_opt matches Some(k) ==> vm@.mem == pre.mem && vm@.input == pre.input
                        && vm@.output == pre.output + puts_bytes(pre.mem, pre.regs.r0, k)),
                decreases vm@.input.len(), kbsr_dist(index),
            {
                let ghost before = vm@;
                let ghost n0 = choose|n: int|
                    0 <= n <= pre.input.len() && before.input == pre.input.skip(n);
                let c = vm.read_memory(index);
                proof {
                    if index == KBSR_ADDR && before.input.len() > 0 {
                        assert(vm@.input =~= pre.input.skip(n0 + 1));
                    }
                    match k_opt {
                        Some(k) => lemma_scan_bounds(pre.mem, pre.regs.r0, j as nat, k),
                        None => {},
                    }
                }
                if c == 0 {
                    break ;
                }
                vm.output.push(c as u8);
                proof {
                    crate::vm::lemma_prefix_push(pre.output, before.output, c as u8);
                    match k_opt {
                        Some(k) => {
                            lemma_scan_bounds(pre.mem, pre.regs.r0, (j as nat) + 1, k);
                            lemma_wrap_inc(pre.regs.r0, j);
                            assert((pre.output + puts_bytes(pre.mem, pre.regs.r0, j as nat)).push(
                                c as u8,
                            ) =~= pre.output + puts_bytes(pre.mem, pre.regs.r0, (j as nat) + 1));
                            j = (j + 1) as u16;
                        },
                        None => {},
                    }
                }
                index = if index == 0xFFFF { 0 } else { index + 1 };
            }
            None
        },
        0x23 => {
            // In: prompt, then one blocking byte from the console into R0
            if vm.input.len() == 0 {
                let pc = vm.registers.pc;
                vm.registers.pc = if pc == 0 { 0xFFFF } else { pc - 1 };
                Some(Termination::OutOfInput)
            } else {
                let ghost out0 = vm.output@;
                vm.output.push(0x45);
                vm.output.push(0x6E);
                vm.output.push(0x74);
                vm.output.push(0x65);
                vm.output.push(0x72);
                vm.output.push(0x20);
                vm.output.push(0x61);
                vm.output.push(0x20);
                vm.output.push(0x20);
                vm.output.push(0x63);
                vm.output.push(0x68);
                vm.output.push(0x61);
                vm.output.push(0x72);
                vm.output.push(0x61);
                vm.output.push(0x63);
                vm.output.push(0x74);
                vm.output.push(0x65);
                vm.output.push(0x72);
                vm.output.push(0x20);
                vm.output.push(0x3A);
                vm.output.push(0x20);
                proof {
                    assert(vm.output@ =~= out0 + input_prompt());
                }
                let b = vm.input.remove(0);
                proof {
                    assert(vm.input@ =~= old(vm).input@.drop_first());
                }
                vm.registers.update(0, b as u16);
                None
            }
        },
        0x24 => {
            // Putsp: two packed characters per word until a zero word
            let ghost pre = vm@;
            let ghost k_opt = nul_offset(pre.mem, pre.regs.r0);
            let mut index: u16 = vm.registers.r0;
            let ghost mut j: u16 = 0;
            proof {
                crate::vm::lemma_prefix_refl(pre.output);
                assert(pre.input.skip(0) =~= pre.input);
                assert(pre.output + putsp_bytes(pre.mem, pre.regs.r0, 0) =~= pre.output);
                match k_opt {
                    Some(k) => lemma_scan_bounds(pre.mem, pre.regs.r0, 0, k),
                    None => {},
                }
            }
            loop
                invariant
                    vm.wf(),
                    vm@.regs == pre.regs,
                    pre.inv(),
                    console_scan_frame(pre, vm@),
                    k_opt == nul_offset(pre.mem, pre.regs.r0),
                    (k_opt matches Some(k) ==> putsp_loop_precise(pre, vm@, index, j, k)),
                ensures
                    vm.wf(),
                    console_scan_frame(pre, vm@),
                    (k_opt matches Some(k) ==> vm@.mem == pre.mem && vm@.input == pre.input
                        && vm@.output == pre.output + putsp_bytes(pre.mem, pre.regs.r0, k)),
                decreases vm@.input.len(), kbsr_dist(index),
            {
                let ghost before = vm@;
                let ghost n0 = choose|n: int|
                    0 <= n <= pre.input.len() && before.input == pre.input.skip(n);
                let c = vm.read_memory(index);
                proof {
                    if index == KBSR_ADDR && before.input.len() > 0 {
                        assert(vm@.input =~= pre.input.skip(n0 + 1));
                    }
                    match k_opt {
                        Some(k) => lemma_scan_bounds(pre.mem, pre.regs.r0, j as nat, k),
                        None => {},
                    }
                }
                if c == 0 {
                    break ;
                }
                let ghost mid_out = vm@.output;
                let c1 = c as u8;
                vm.output.push(c1);
                let c2 = (c >> 8) as u8;
                if c2 != 0 {
                    vm.output.push(c2);
                }
                proof {
                    crate::vm::lemma_prefix_push(pre.output, mid_out, c1);
                    if c2 != 0 {
                        crate::vm::lemma_prefix_push(pre.output, mid_out.push(c1), c2);
                    }
                    match k_opt {
                        Some(k) => {
                            lemma_scan_bounds(pre.mem, pre.regs.r0, (j as nat) + 1, k);
                            lemma_wrap_inc(pre.regs.r0, j);
                            assert(vm@.output =~= pre.output + putsp_bytes(
                                pre.mem,
                                pre.regs.r0,
                                (j as nat) + 1,
                            ));
                            j = (j + 1) as u16;
                        },
                        None => {},
                    }
                }
                index = if index == 0xFFFF { 0 } else { index + 1 };
            }
            None
        },
        0x25 => {
            // Halt: stop the machine through the distinguished normal path
            Some(Termination::Halted)
        },
        _ => {
            // an unknown trap vector stops the machine through its own path
            Some(Termination::InvalidTrap)
        },
    }
}

/// Effect of one decoded instruction: the handler relation selected by
/// the opcode. RTI and RES decode but do nothing. Only TRAP can end the
/// run. Whatever the instruction, console output only grows.
pub open spec fn exec_post(i: u16, pre: VmState, post: VmState, r: Option<Termination>) -> bool {
    let op = decode(i);
    &&& pre.output.is_prefix_of(post.output)
    &&& (op == OpCode::ADD ==> add_post(i, pre, post) && r == None::<Termination>)
    &&& (op == OpCode::AND ==> and_post(i, pre, post) && r == None::<Termination>)
    &&& (op == OpCode::NOT ==> not_post(i, pre, post) && r == None::<Termination>)
    &&& (op == OpCode::BR ==> br_post(i, pre, post) && r == None::<Termination>)
    &&& (op == OpCode::JMP ==> jmp_post(i, pre, post) && r == None::<Termination>)
    &&& (op == OpCode::JSR ==> jsr_post(i, pre, post) && r == None::<Termination>)
    &&& (op == OpCode::LD ==> ld_post(i, pre, post) && r == None::<Termination>)
    &&& (op == OpCode::LDI ==> ldi_post(i, pre, post) && r == None::<Termination>)
    &&& (op == OpCode::LDR ==> ldr_post(i, pre, post) && r == None::<Termination>)
    &&& (op == OpCode::LEA ==> lea_post(i, pre, post) && r == None::<Termination>)
    &&& (op == OpCode::ST ==> st_post(i, pre, post) && r == None::<Termination>)
    &&& (op == OpCode::STI ==> sti_post(i, pre, post) && r == None::<Termination>)
    &&& (op == OpCode::STR ==> str_post(i, pre, post) && r == None::<Termination>)
    &&& (op == OpCode::RTI ==> same_state(pre, post) && r == None::<Termination>)
    &&& (op == OpCode::RES ==> same_state(pre, post) && r == None::<Termination>)
    &&& (op == OpCode::TRAP ==> trap_post(i, pre, post, r))
}

/// A trap never shrinks the console output.
pub proof fn lemma_trap_output_grows(i: u16, pre: VmState, post: VmState, r: Option<Termination>)
    requires
        trap_post(i, pre, post, r),
    ensures
        pre.output.is_prefix_of(post.output),
{
    crate::vm::lemma_prefix_refl(pre.output);
    match trap_code_of(i) {
        Some(TrapCode::Out) => {
            crate::vm::lemma_prefix_push(pre.output, pre.output, pre.regs.r0 as u8);
        },
        Some(TrapCode::Puts) => {
            match nul_offset(pre.mem, pre.regs.r0) {
                Some(k) => {
                    crate::vm::lemma_prefix_concat(
                        pre.output,
                        pre.output,
                        puts_bytes(pre.mem, pre.regs.r0, k),
                    );
                },
                None => {},
            }
        },
        Some(TrapCode::In) => {
            if pre.input.len() > 0 {
                crate::vm::lemma_prefix_concat(pre.output, pre.output, input_prompt());
            }
        },
        Some(TrapCode::Putsp) => {
            match nul_offset(pre.mem, pre.regs.r0) {
                Some(k) => {
                    crate::vm::lemma_prefix_concat(
                        pre.output,
                        pre.output,
                        putsp_bytes(pre.mem, pre.regs.r0, k),
                    );
                },
                None => {},
            }
        },
        _ => {},
    }
}

/// Decode `instr` and run its handler against the machine. `Some` is
/// returned exactly when a TRAP instruction ends the run.
pub fn execute_instruction(instr: u16, vm: &mut VM) -> (r: Option<Termination>)
    requires
        old(vm).wf(),
    ensures
        final(vm).wf(),
        exec_post(instr, old(vm)@, final(vm)@, r),
{
    let op_code = get_opcode(&instr);
    let r = match op_code {
        Some(OpCode::ADD) => {
            crate::instruction::add(instr, vm);
            None
        },
        Some(OpCode::AND) => {
            and(instr, vm);
            None
        },
        Some(OpCode::NOT) => {
            not(instr, vm);
            None
        },
        Some(OpCode::BR) => {
            br(instr, vm);
            None
        },
        Some(OpCode::JMP) => {
            jmp(instr, vm);
            None
        },
        Some(OpCode::JSR) => {
            jsr(instr, vm);
            None
        },
        Some(OpCode::LD) => {
            ld(instr, vm);
            None
        },
        Some(OpCode::LDI) => {
            ldi(instr, vm);
            None
        },
        Some(OpCode::LDR) => {
            ldr(instr, vm);
            None
        },
        Some(OpCode::LEA) => {
            lea(instr, vm);
            None
        },
        Some(OpCode::ST) => {
            st(instr, vm);
            None
        },
        Some(OpCode::STI) => {
            sti(instr, vm);
            None
        },
        Some(OpCode::STR) => {
            str(instr, vm);
            None
        },
        Some(OpCode::TRAP) => trap(instr, vm),
        _ => None,
    };
    proof {
        crate::vm::lemma_prefix_refl(old(vm)@.output);
        if decode(instr) == OpCode::TRAP {
            lemma_trap_output_grows(instr, old(vm)@, vm@, r);
        }
    }
    r
}

/// What a destination write leaves in the register file: the value in the
/// destination, its flag in the condition register, everything else as it
/// was.
pub proof fn lemma_writes_dest_value(pre: Registers, post: Registers, dr: int, v: u16)
    requires
        0 <= dr < 8,
        writes_dest(pre, post, dr, v),
    ensures
        post.reg(dr) == v,
        post.cond == flag_for(v),
        post.pc == pre.pc,
        forall|j: int| 0 <= j < 8 && j != dr ==> post.reg(j) == pre.reg(j),
{
    crate::register::lemma_with_reg_reg(pre, dr, v);
    crate::register::lemma_with_reg_reg(with_reg(pre, dr, v), 9, flag_for(v));
}

/// Sign extension leaves a value whose sign bit is clear unchanged, and
/// maps one whose sign bit is set to its 16-bit two's-complement
/// encoding: the value minus two to the field width, taken modulo 2^16.
pub proof fn lemma_sign_extend(x: u16, n: u16)
    requires
        1 <= n <= 15,
        x < (1u16 << n),
    ensures
        (x >> ((n - 1) as u16)) & 1 == 0 ==> sext(x, n) == x,
        (x >> ((n - 1) as u16)) & 1 == 1 ==> sext(x, n) == x + 0x10000 - (1u16 << n),
{
    assert((x >> ((n - 1) as u16)) & 1 == 1 ==> (x | (0xFFFFu16 << n)) == x + 0x10000 - (1u16
        << n)) by (bit_vector)
        requires
            1 <= n <= 15 && x < (1u16 << n),
    ;
}

/// Writing a pointer at the first effective address and a value where it
/// points makes LDI load that value into the destination. Stated away
/// from the keyboard status cell, whose read has side effects.
pub proof fn lemma_ldi_round_trip(i: u16, pre: VmState, post: VmState)
    requires
        ldi_post(i, pre, post),
        wrap_add(pre.regs.pc, off9_of(i)) != KBSR_ADDR,
        pre.mem[wrap_add(pre.regs.pc, off9_of(i)) as int] != KBSR_ADDR,
    ensures
        post.regs.reg(dr_of(i) as int) == pre.mem[pre.mem[wrap_add(
            pre.regs.pc,
            off9_of(i),
        ) as int] as int],
{
    lemma_field_bounds(i);
    let a = wrap_add(pre.regs.pc, off9_of(i));
    let p = pre.mem[a as int];
    lemma_writes_dest_value(pre.regs, post.regs, dr_of(i) as int, pre.mem[p as int]);
}

/// For the same operand bits, LEA stores the effective address itself and
/// LD the memory word read there: whenever that word differs from the
/// address, the two destinations differ.
pub proof fn lemma_lea_vs_ld(i: u16, pre: VmState, post_lea: VmState, post_ld: VmState)
    requires
        lea_post(i, pre, post_lea),
        ld_post(i, pre, post_ld),
        ({
            let a = wrap_add(pre.regs.pc, off9_of(i));
            mem_after_read(pre.mem, pre.input, a)[a as int] != a
        }),
    ensures
        post_ld.regs.reg(dr_of(i) as int) != post_lea.regs.reg(dr_of(i) as int),
{
    lemma_field_bounds(i);
    let a = wrap_add(pre.regs.pc, off9_of(i));
    let m1 = mem_after_read(pre.mem, pre.input, a);
    lemma_writes_dest_value(pre.regs, post_lea.regs, dr_of(i) as int, a);
    lemma_writes_dest_value(pre.regs, post_ld.regs, dr_of(i) as int, m1[a as int]);
}

/// With the condition flags equal to ZRO, a branch whose condition mask
/// includes the zero flag moves the program counter by the signed offset,
/// and one whose mask excludes it leaves the counter unchanged.
pub proof fn lemma_br_on_zero(i: u16, pre: VmState, post: VmState)
    requires
        br_post(i, pre, post),
        pre.regs.cond == FL_ZRO,
    ensures
        dr_of(i) & FL_ZRO != 0 ==> post.regs.pc == wrap_add(pre.regs.pc, off9_of(i)),
        dr_of(i) & FL_ZRO == 0 ==> post.regs.pc == pre.regs.pc,
{
}

/// A short-form JSR saves the incremented program counter in R7; a JMP
/// through R7 then returns the counter to the instruction right after the
/// JSR.
pub proof fn lemma_jsr_jmp_round_trip(
    i_jsr: u16,
    i_jmp: u16,
    pre: VmState,
    mid: VmState,
    post: VmState,
)
    requires
        jsr_post(i_jsr, pre, mid),
        !long_mode(i_jsr),
        jmp_post(i_jmp, mid, post),
        sr1_of(i_jmp) == 7,
    ensures
        post.regs.pc == pre.regs.pc,
        mid.regs.r7 == pre.regs.pc,
{
}

} // verus!

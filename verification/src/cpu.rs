//! The single-cycle fetch-decode-execute core.
//!
//! Registers R0-R3, a program counter, a stack pointer that grows down from
//! 0xFFFE, the FLAGS register, 64 KB of memory with an L1 data cache in front
//! of it, and interrupt dispatch through the vector table at 0x0000.
//! Instruction fetches read memory directly; data reads and writes (LOADM,
//! STORE and the stack) go through the cache.

use vstd::prelude::*;
use crate::alu::{alu, alu_spec, is_alu};
use crate::cache::{Cache, CacheModel, CacheStats, cache_read, cache_write, stats_room, read_room, zero_stats, NUM_LINES, CacheLine};
use crate::flags::{Flags, bit_of, with_bit, flags_text, C_BIT, IE_BIT, N_BIT, Z_BIT};
use crate::isa::{Instruction, Opcode, decode_spec, field_opcode, unknown_opcode_text};
use crate::memory::{Memory, word_at, store_word, load_bytes, MEM_SIZE};
use crate::text::{add16, err_view, hex, dec, push_hex, push_dec};

verus! {

/// Interrupt vector table base address.
pub const IVT_BASE: u16 = 0x0000;
/// Initial stack pointer; the stack grows down.
pub const STACK_BASE: u16 = 0xFFFE;
/// Where programs are loaded and execution starts.
pub const PROG_BASE: u16 = 0x0200;

/// Execution state of the core.
#[derive(Debug, Clone, Copy, PartialEq, Eq, Structural)]
pub enum CpuState {
    Running,
    Halted,
    WaitingForInterrupt,
}

/// The single-cycle core.
pub struct Cpu {
    /// General-purpose registers R0-R3.
    pub regs: [u16; 4],
    /// Program counter.
    pub pc: u16,
    /// Stack pointer.
    pub sp: u16,
    /// FLAGS register.
    pub flags: Flags,
    /// Main memory.
    pub mem: Memory,
    /// L1 data cache in front of `mem`.
    pub cache: Cache,
    /// Pending interrupt number.
    pub pending_irq: Option<u8>,
    /// Execution state.
    pub state: CpuState,
    /// Cycle counter.
    pub cycles: u64,
    /// Whether cache statistics are reported when the core halts.
    pub print_cache_stats: bool,
}

/// The abstract state of the core.
pub struct CpuModel {
    pub regs: Seq<u16>,
    pub pc: u16,
    pub sp: u16,
    pub flags: u8,
    pub mem: Seq<u8>,
    pub cache: CacheModel,
    pub pending_irq: Option<u8>,
    pub state: CpuState,
    pub cycles: u64,
    pub print_cache_stats: bool,
}

impl View for Cpu {
    type V = CpuModel;

    open spec fn view(&self) -> CpuModel {
        CpuModel {
            regs: self.regs@,
            pc: self.pc,
            sp: self.sp,
            flags: self.flags.0,
            mem: self.mem@,
            cache: self.cache@,
            pending_irq: self.pending_irq,
            state: self.state,
            cycles: self.cycles,
            print_cache_stats: self.print_cache_stats,
        }
    }
}

/// The state of a freshly created core.
pub open spec fn initial_model() -> CpuModel {
    CpuModel {
        regs: seq![0u16, 0u16, 0u16, 0u16],
        pc: PROG_BASE,
        sp: STACK_BASE,
        flags: 0,
        mem: Seq::new(MEM_SIZE as nat, |i: int| 0u8),
        cache: CacheModel {
            lines: Seq::new(NUM_LINES as nat, |i: int| CacheLine { valid: false, tag: 0, data: 0 }),
            stats: zero_stats(),
        },
        pending_irq: None,
        state: CpuState::Running,
        cycles: 0,
        print_cache_stats: false,
    }
}

/// A data read of `addr` through the cache.
pub open spec fn m_read(s: CpuModel, addr: u16) -> (CpuModel, u16) {
    let (c, w) = cache_read(s.cache, s.mem, addr);
    (CpuModel { cache: c, ..s }, w)
}

/// A data write of `val` to `addr`: memory and, when cached, the cache line.
pub open spec fn m_write(s: CpuModel, addr: u16, val: u16) -> CpuModel {
    CpuModel { cache: cache_write(s.cache, addr, val), mem: store_word(s.mem, addr, val), ..s }
}

/// Pushing `val`: the stack pointer drops by 2, then the word is written there.
pub open spec fn m_push(s: CpuModel, val: u16) -> CpuModel {
    let sp = add16(s.sp, -2);
    m_write(CpuModel { sp, ..s }, sp, val)
}

/// Popping: the word at the stack pointer is read, then the pointer rises by 2.
pub open spec fn m_pop(s: CpuModel) -> (CpuModel, u16) {
    let (t, v) = m_read(s, s.sp);
    (CpuModel { sp: add16(s.sp, 2), ..t }, v)
}

/// Interrupt dispatch: interrupts are disabled, FLAGS (with IE now clear)
/// and the program counter are pushed, and the program counter is loaded
/// from vector table entry `irq`.
pub open spec fn m_interrupt(s: CpuModel, irq: u8) -> CpuModel {
    let f = with_bit(s.flags, IE_BIT, false);
    let s1 = m_push(CpuModel { flags: f, ..s }, f as u16);
    let s2 = m_push(s1, s.pc);
    let (s3, target) = m_read(s2, add16(IVT_BASE, 2 * irq));
    CpuModel { pc: target, ..s3 }
}

/// `s` with register `r` set to `v`.
pub open spec fn set_reg(s: CpuModel, r: u8, v: u16) -> CpuModel {
    CpuModel { regs: s.regs.update(r as int, v), ..s }
}

/// A conditional jump: to `target` when `taken`, else past the address word.
pub open spec fn branch(s: CpuModel, taken: bool, target: u16) -> CpuModel {
    CpuModel { pc: if taken { target } else { add16(s.pc, 2) }, ..s }
}

/// Register moves and memory access: NOP, LOAD, LOADM, STORE, MOV, SWAP.
pub open spec fn exec_data(s: CpuModel, i: Instruction) -> CpuModel {
    let a = s.regs[i.dst as int];
    let b = s.regs[i.src as int];
    match i.opcode {
        Opcode::Load => if i.imm == 0x3E {
            set_reg(CpuModel { pc: add16(s.pc, 2), ..s }, i.dst, word_at(s.mem, s.pc))
        } else {
            set_reg(s, i.dst, i.imm)
        },
        Opcode::LoadM => {
            let (t, w) = m_read(s, b);
            set_reg(t, i.dst, w)
        },
        Opcode::Store => m_write(s, a, b),
        Opcode::Mov => set_reg(s, i.dst, b),
        Opcode::Swap => CpuModel { regs: s.regs.update(i.dst as int, b).update(i.src as int, a), ..s },
        _ => s,
    }
}

/// Arithmetic, logic, shifts and compare. DIV and MOD by zero fail; CMP
/// writes only the flags.
pub open spec fn exec_alu(s: CpuModel, i: Instruction) -> Result<CpuModel, Seq<char>> {
    let a = s.regs[i.dst as int];
    let b = s.regs[i.src as int];
    let (r, f) = alu_spec(i.opcode, a, b, i.imm, s.flags);
    if i.opcode == Opcode::Div && b == 0 {
        Err("Division by zero"@)
    } else if i.opcode == Opcode::Mod && b == 0 {
        Err("Modulo by zero"@)
    } else if i.opcode == Opcode::Cmp {
        Ok(CpuModel { flags: f, ..s })
    } else {
        Ok(CpuModel { flags: f, ..set_reg(s, i.dst, r) })
    }
}

/// Jumps, calls and returns.
pub open spec fn exec_flow(s: CpuModel, i: Instruction) -> CpuModel {
    match i.opcode {
        Opcode::Jmp => CpuModel { pc: i.imm, ..s },
        Opcode::Jz => branch(s, bit_of(s.flags, Z_BIT), i.imm),
        Opcode::Jnz => branch(s, !bit_of(s.flags, Z_BIT), i.imm),
        Opcode::Jc => branch(s, bit_of(s.flags, C_BIT), i.imm),
        Opcode::Jn => branch(s, bit_of(s.flags, N_BIT), i.imm),
        Opcode::Call => CpuModel { pc: i.imm, ..m_push(s, add16(s.pc, 2)) },
        Opcode::Ret => {
            let (t, v) = m_pop(s);
            CpuModel { pc: v, ..t }
        },
        _ => s,
    }
}

/// Stack, interrupts and HALT: PUSH, POP, INT, IRET, EI, DI, HALT.
pub open spec fn exec_system(s: CpuModel, i: Instruction) -> CpuModel {
    match i.opcode {
        Opcode::Push => m_push(s, s.regs[i.dst as int]),
        Opcode::Pop => {
            let (t, v) = m_pop(s);
            set_reg(t, i.dst, v)
        },
        Opcode::Int => m_interrupt(s, i.imm as u8),
        Opcode::Iret => {
            let (t1, pcv) = m_pop(s);
            let (t2, fv) = m_pop(t1);
            CpuModel { pc: pcv, flags: fv as u8, ..t2 }
        },
        Opcode::Ei => CpuModel { flags: with_bit(s.flags, IE_BIT, true), ..s },
        Opcode::Di => CpuModel { flags: with_bit(s.flags, IE_BIT, false), ..s },
        Opcode::Halt => CpuModel { state: CpuState::Halted, ..s },
        _ => s,
    }
}

/// The group of an opcode for `exec_spec`.
pub open spec fn is_flow(op: Opcode) -> bool {
    match op {
        Opcode::Jmp | Opcode::Jz | Opcode::Jnz | Opcode::Jc | Opcode::Jn | Opcode::Call | Opcode::Ret => true,
        _ => false,
    }
}

/// The stack, interrupt and HALT opcodes.
pub open spec fn is_system(op: Opcode) -> bool {
    match op {
        Opcode::Push | Opcode::Pop | Opcode::Int | Opcode::Iret | Opcode::Ei | Opcode::Di
        | Opcode::Halt => true,
        _ => false,
    }
}

/// The effect of executing `i` on `s` (the program counter already points
/// past the instruction word), or the error that stops it.
pub open spec fn exec_spec(s: CpuModel, i: Instruction) -> Result<CpuModel, Seq<char>> {
    if is_alu(i.opcode) {
        exec_alu(s, i)
    } else if is_flow(i.opcode) {
        Ok(exec_flow(s, i))
    } else if is_system(i.opcode) {
        Ok(exec_system(s, i))
    } else {
        Ok(exec_data(s, i))
    }
}

/// One step of the core: the state after it and what `step` returns.
///
/// With interrupts enabled and an interrupt pending, the interrupt is
/// dispatched (6 cycles) and the core is running again. Otherwise a core
/// that is not running stays as it is. Otherwise the instruction at the
/// program counter is fetched (the program counter moves past it), decoded
/// and executed, and one cycle is counted; a decode or execution error
/// stops the step after the fetch.
pub open spec fn step_spec(s: CpuModel) -> (CpuModel, Result<CpuState, Seq<char>>) {
    if bit_of(s.flags, IE_BIT) && s.pending_irq is Some {
        let t = m_interrupt(CpuModel { pending_irq: None, ..s }, s.pending_irq->0);
        (CpuModel { state: CpuState::Running, cycles: (s.cycles + 6) as u64, ..t }, Ok(CpuState::Running))
    } else if s.state != CpuState::Running {
        (s, Ok(s.state))
    } else {
        let word = word_at(s.mem, s.pc);
        let s1 = CpuModel { pc: add16(s.pc, 2), ..s };
        let next = word_at(s.mem, s1.pc);
        match decode_spec(word, next) {
            None => (s1, Err(unknown_opcode_text(field_opcode(word)))),
            Some(i) => match exec_spec(s1, i) {
                Err(e) => (s1, Err(e)),
                Ok(s2) => {
                    let s3 = CpuModel { cycles: (s2.cycles + 1) as u64, ..s2 };
                    (s3, Ok(s3.state))
                },
            },
        }
    }
}

/// The cycles a step counts: six for an interrupt dispatch, none for a core
/// that is not running, one for an instruction.
pub open spec fn step_cycles(s: CpuModel) -> int {
    if bit_of(s.flags, IE_BIT) && s.pending_irq is Some {
        6
    } else if s.state != CpuState::Running {
        0
    } else {
        1
    }
}

/// The counters can take one more step: the cycles it counts, and the at
/// most two accesses it makes through the cache.
pub open spec fn step_room(s: CpuModel) -> bool {
    s.cycles + step_cycles(s) <= u64::MAX && stats_room(s.cache.stats, 2)
}

/// `run` can go on to `max` cycles without a counter passing `u64::MAX`:
/// a step taken below `max` ends at most five cycles past it, and each
/// step counts at least one cycle and adds at most two to a cache counter.
pub open spec fn run_room(s: CpuModel, max: u64) -> bool {
    &&& max <= u64::MAX - 5
    &&& s.cycles < max ==> stats_room(s.cache.stats, 2 * (max - s.cycles))
}

/// Running: steps while the core is running and under `max` cycles; the
/// first error ends the run.
pub open spec fn run_spec(s: CpuModel, max: u64) -> (CpuModel, Result<CpuState, Seq<char>>)
    decreases (if s.cycles < max {
        max - s.cycles
    } else {
        0
    }),
{
    if s.state == CpuState::Running && s.cycles < max {
        let (t, r) = step_spec(s);
        match r {
            Err(e) => (t, Err(e)),
            Ok(_) => if t.cycles > s.cycles {
                run_spec(t, max)
            } else {
                (t, Ok(t.state))
            },
        }
    } else {
        (s, Ok(s.state))
    }
}

/// The text `dump_state` returns.
pub open spec fn dump_text(s: CpuModel) -> Seq<char> {
    "PC="@ + hex(s.pc as nat, 4) + "  SP="@ + hex(s.sp as nat, 4) + "  FLAGS="@ + flags_text(s.flags)
        + "\n  R0="@ + hex(s.regs[0] as nat, 4) + "  R1="@ + hex(s.regs[1] as nat, 4) + "  R2="@
        + hex(s.regs[2] as nat, 4) + "  R3="@ + hex(s.regs[3] as nat, 4) + "\n  Cycles: "@ + dec(
        s.cycles as nat,
    )
}

/// Every counter of `b` is at least that of `a` and at most `n` above it.
pub open spec fn stats_grow(a: CacheStats, b: CacheStats, n: int) -> bool {
    &&& a.reads <= b.reads <= a.reads + n
    &&& a.writes <= b.writes <= a.writes + n
    &&& a.hits <= b.hits <= a.hits + n
    &&& a.misses <= b.misses <= a.misses + n
    &&& a.cold_misses <= b.cold_misses <= a.cold_misses + n
    &&& a.conflict_misses <= b.conflict_misses <= a.conflict_misses + n
}

proof fn lemma_exec_growth(s: CpuModel, i: Instruction)
    requires
        stats_room(s.cache.stats, 2),
        exec_spec(s, i) is Ok,
    ensures
        stats_grow(s.cache.stats, exec_spec(s, i)->Ok_0.cache.stats, 2),
        exec_spec(s, i)->Ok_0.cycles == s.cycles,
{
}

/// A running step that succeeds counts between one and six cycles and adds
/// at most two to any cache counter.
pub proof fn lemma_step_growth(s: CpuModel)
    requires
        s.state == CpuState::Running,
        step_room(s),
        step_spec(s).1 is Ok,
    ensures
        s.cycles + 1 <= step_spec(s).0.cycles <= s.cycles + 6,
        stats_grow(s.cache.stats, step_spec(s).0.cache.stats, 2),
{
    if bit_of(s.flags, IE_BIT) && s.pending_irq is Some {
    } else {
        let s1 = CpuModel { pc: add16(s.pc, 2), ..s };
        let word = word_at(s.mem, s.pc);
        let next = word_at(s.mem, s1.pc);
        lemma_exec_growth(s1, decode_spec(word, next)->0);
    }
}

/// A core that has halted stays halted, and a step changes nothing, unless
/// an interrupt is pending with interrupts enabled.
pub proof fn law_halt_is_sticky(s: CpuModel)
    requires
        s.state == CpuState::Halted,
        !(bit_of(s.flags, IE_BIT) && s.pending_irq is Some),
    ensures
        step_spec(s) == (s, Ok::<CpuState, Seq<char>>(CpuState::Halted)),
{
}

/// Popping right after pushing `v` gives `v` back and restores the stack
/// pointer; registers, program counter and flags are untouched.
pub proof fn law_push_pop_roundtrip(s: CpuModel, v: u16)
    requires
        s.mem.len() == MEM_SIZE,
        s.cache.lines.len() == NUM_LINES,
    ensures
        m_pop(m_push(s, v)).1 == v,
        m_pop(m_push(s, v)).0.sp == s.sp,
        m_pop(m_push(s, v)).0.regs == s.regs,
        m_pop(m_push(s, v)).0.pc == s.pc,
        m_pop(m_push(s, v)).0.flags == s.flags,
{
    crate::memory::law_word_read_after_write(s.mem, add16(s.sp, -2), v, 0);
}

/// CALL followed by RET returns to the word after the CALL's address word
/// with the stack pointer restored.
pub proof fn law_call_then_ret(s: CpuModel, target: u16, ret: Instruction)
    requires
        s.mem.len() == MEM_SIZE,
        s.cache.lines.len() == NUM_LINES,
        ret.opcode == Opcode::Ret,
    ensures
        ({
            let call = Instruction { opcode: Opcode::Call, dst: 0, src: 0, imm: target };
            let after_call = exec_flow(s, call);
            let after_ret = exec_flow(after_call, ret);
            after_call.pc == target && after_ret.pc == add16(s.pc, 2) && after_ret.sp == s.sp
                && after_ret.regs == s.regs
        }),
{
    law_push_pop_roundtrip(s, add16(s.pc, 2));
}

/// Interrupt dispatch disables interrupts, clears nothing else in FLAGS,
/// pushes FLAGS (with IE now clear) and then the program counter (so the
/// program counter is on top of the stack), and moves the stack pointer down
/// by four.
#[verifier::rlimit(40)]
pub proof fn law_interrupt_frame(s: CpuModel, irq: u8)
    requires
        s.mem.len() == MEM_SIZE,
    ensures
        ({
            let t = m_interrupt(s, irq);
            let f = with_bit(s.flags, IE_BIT, false);
            &&& !bit_of(t.flags, IE_BIT)
            &&& t.flags == f
            &&& t.sp == add16(s.sp, -4)
            &&& word_at(t.mem, t.sp) == s.pc
            &&& word_at(t.mem, add16(t.sp, 2)) == f as u16
        }),
{
    let f = with_bit(s.flags, IE_BIT, false);
    crate::flags::lemma_with_bit(s.flags, IE_BIT, false, IE_BIT);
    let sp1 = add16(s.sp, -2);
    let sp2 = add16(sp1, -2);
    let m1 = store_word(s.mem, sp1, f as u16);
    let m2 = store_word(m1, sp2, s.pc);
    let s1 = m_push(CpuModel { flags: f, ..s }, f as u16);
    assert(s1.mem == m1 && s1.sp == sp1 && s1.flags == f);
    let s2 = m_push(s1, s.pc);
    assert(s2.mem == m2 && s2.sp == sp2 && s2.flags == f);
    let t = m_interrupt(s, irq);
    assert(t.mem == m2 && t.sp == sp2 && t.flags == f);
    assert(sp2 == add16(s.sp, -4));
    crate::memory::law_word_read_after_write(s.mem, sp1, f as u16, 0);
    crate::memory::law_word_read_after_write(m1, sp2, s.pc, sp1);
    assert(add16(sp2, 2) == sp1);
}

proof fn lemma_add16_even(x: u16, k: int)
    requires
        x % 2 == 0,
        k % 2 == 0,
    ensures
        add16(x, k) % 2 == 0,
{
    let y = x + k;
    assert((y % 65536) % 2 == y % 2) by (nonlinear_arith);
    assert(y % 2 == 0) by (nonlinear_arith)
        requires
            x % 2 == 0,
            k % 2 == 0,
            y == x + k,
    ;
}

/// IRET on a coherent cache at an even stack pointer pops the program
/// counter, then the FLAGS word, as memory holds them.
proof fn lemma_iret_pops(u: CpuModel)
    requires
        u.mem.len() == MEM_SIZE,
        u.cache.lines.len() == NUM_LINES,
        crate::cache::coherent(u.cache.lines, u.mem),
        u.sp % 2 == 0,
    ensures
        ({
            let v = exec_spec(u, Instruction { opcode: Opcode::Iret, dst: 0, src: 0, imm: 0 })->Ok_0;
            &&& exec_spec(u, Instruction { opcode: Opcode::Iret, dst: 0, src: 0, imm: 0 }) is Ok
            &&& v.pc == word_at(u.mem, u.sp)
            &&& v.sp == add16(add16(u.sp, 2), 2)
            &&& v.flags == word_at(u.mem, add16(u.sp, 2)) as u8
        }),
{
    let sp2 = add16(u.sp, 2);
    lemma_add16_even(u.sp, 2);
    crate::cache::law_aligned_read_is_memory(u.cache, u.mem, u.sp);
    let (c1, _) = cache_read(u.cache, u.mem, u.sp);
    crate::cache::law_aligned_read_is_memory(c1, u.mem, sp2);
}

/// INT then IRET: once INT `irq` has run, a handler that leaves the stack
/// pointer and the two words INT pushed where they were (and keeps the
/// cache coherent with memory) can IRET, and IRET brings back the program
/// counter and stack pointer INT started from and the FLAGS byte as it was
/// before INT with only Interrupt Enable (bit 7) cleared.
pub proof fn law_int_then_iret(s: CpuModel, irq: u16, u: CpuModel)
    requires
        s.mem.len() == MEM_SIZE,
        s.sp % 2 == 0,
        u.mem.len() == MEM_SIZE,
        u.cache.lines.len() == NUM_LINES,
        crate::cache::coherent(u.cache.lines, u.mem),
        ({
            let t = exec_spec(s, Instruction { opcode: Opcode::Int, dst: 0, src: 0, imm: irq })->Ok_0;
            &&& u.sp == t.sp
            &&& word_at(u.mem, u.sp) == word_at(t.mem, t.sp)
            &&& word_at(u.mem, add16(u.sp, 2)) == word_at(t.mem, add16(t.sp, 2))
        }),
    ensures
        exec_spec(s, Instruction { opcode: Opcode::Int, dst: 0, src: 0, imm: irq }) is Ok,
        exec_spec(u, Instruction { opcode: Opcode::Iret, dst: 0, src: 0, imm: 0 }) is Ok,
        ({
            let v = exec_spec(u, Instruction { opcode: Opcode::Iret, dst: 0, src: 0, imm: 0 })->Ok_0;
            &&& v.pc == s.pc
            &&& v.sp == s.sp
            &&& v.flags == s.flags & 0x7Fu8
        }),
{
    lemma_int_frame(s, irq);
    lemma_iret_pops(u);
    lemma_add16_back(s.sp);
}

/// INT runs interrupt dispatch: FLAGS without IE, then the program counter,
/// are pushed, four bytes below an even stack pointer.
proof fn lemma_int_frame(s: CpuModel, irq: u16)
    requires
        s.mem.len() == MEM_SIZE,
        s.sp % 2 == 0,
    ensures
        ({
            let i = Instruction { opcode: Opcode::Int, dst: 0, src: 0, imm: irq };
            let t = exec_spec(s, i)->Ok_0;
            &&& exec_spec(s, i) is Ok
            &&& t.sp == add16(s.sp, -4)
            &&& t.sp % 2 == 0
            &&& word_at(t.mem, t.sp) == s.pc
            &&& (word_at(t.mem, add16(t.sp, 2)) as u8) == s.flags & 0x7Fu8
        }),
{
    let i = Instruction { opcode: Opcode::Int, dst: 0, src: 0, imm: irq };
    assert(exec_spec(s, i) == Ok::<CpuModel, Seq<char>>(m_interrupt(s, irq as u8)));
    law_interrupt_frame(s, irq as u8);
    let sf = s.flags;
    assert(sf & !(1u8 << 7u8) == sf & 0x7Fu8) by (bit_vector);
    lemma_add16_even(s.sp, -4);
    let f = with_bit(s.flags, IE_BIT, false);
    assert((f as u16) as u8 == f);
}

/// Four bytes down, then two and two up, is where the stack pointer began.
proof fn lemma_add16_back(x: u16)
    ensures
        add16(add16(add16(x, -4), 2), 2) == x,
{
    let y = add16(x, -4);
    crate::text::lemma_add16_add16(y, 2, 2);
    let z = x - 4;
    assert((z % 65536 + 4) % 65536 == x) by (nonlinear_arith)
        requires
            z == x - 4,
            0 <= x < 65536,
    ;
}

/// A step keeps the cache counters consistent (reads are hits plus misses,
/// misses are cold plus conflict).
pub proof fn law_step_keeps_stats_consistent(s: CpuModel)
    requires
        step_room(s),
        crate::cache::stats_consistent(s.cache.stats),
    ensures
        crate::cache::stats_consistent(step_spec(s).0.cache.stats),
{
}

/// Only EI, DI, IRET (which restores saved flags) and INT change the
/// Interrupt Enable flag: every other instruction keeps it.
pub proof fn law_ie_kept_by_other_instructions(s: CpuModel, i: Instruction)
    requires
        !(i.opcode is Ei || i.opcode is Di || i.opcode is Iret || i.opcode is Int),
        exec_spec(s, i) is Ok,
    ensures
        bit_of(exec_spec(s, i)->Ok_0.flags, IE_BIT) == bit_of(s.flags, IE_BIT),
{
    crate::alu::lemma_alu_keeps_ie(i.opcode, s.regs[i.dst as int], s.regs[i.src as int], i.imm, s.flags);
}

/// A step that dispatches no interrupt and runs an instruction other than
/// EI, DI, IRET and INT leaves the Interrupt Enable flag as it was.
pub proof fn law_step_keeps_ie(s: CpuModel)
    requires
        !(bit_of(s.flags, IE_BIT) && s.pending_irq is Some),
        s.state == CpuState::Running,
        decode_spec(word_at(s.mem, s.pc), word_at(s.mem, add16(s.pc, 2))) matches Some(i) && !(
        i.opcode is Ei || i.opcode is Di || i.opcode is Iret || i.opcode is Int),
    ensures
        bit_of(step_spec(s).0.flags, IE_BIT) == bit_of(s.flags, IE_BIT),
{
    let i = decode_spec(word_at(s.mem, s.pc), word_at(s.mem, add16(s.pc, 2)))->Some_0;
    let s1 = CpuModel { pc: add16(s.pc, 2), ..s };
    if exec_spec(s1, i) is Ok {
        law_ie_kept_by_other_instructions(s1, i);
    }
}

/// The program counter after a step that runs instruction `i`: two bytes on
/// for one-word instructions, four for a conditional jump not taken and for
/// a wide LOAD, the target for JMP, CALL and a taken conditional jump.
pub proof fn law_pc_advance(s: CpuModel)
    requires
        !(bit_of(s.flags, IE_BIT) && s.pending_irq is Some),
        s.state == CpuState::Running,
        decode_spec(word_at(s.mem, s.pc), word_at(s.mem, add16(s.pc, 2))) is Some,
        step_spec(s).1 is Ok,
    ensures
        ({
            let i = decode_spec(word_at(s.mem, s.pc), word_at(s.mem, add16(s.pc, 2)))->Some_0;
            let pc = step_spec(s).0.pc;
            let z = bit_of(s.flags, Z_BIT);
            let taken = match i.opcode {
                Opcode::Jmp | Opcode::Call => true,
                Opcode::Jz => z,
                Opcode::Jnz => !z,
                Opcode::Jc => bit_of(s.flags, C_BIT),
                Opcode::Jn => bit_of(s.flags, N_BIT),
                _ => false,
            };
            &&& taken ==> pc == i.imm
            &&& (i.opcode is Jz || i.opcode is Jnz || i.opcode is Jc || i.opcode is Jn) && !taken
                ==> pc == add16(s.pc, 4)
            &&& i.opcode is Load && i.imm == 0x3E ==> pc == add16(s.pc, 4)
            &&& !is_flow(i.opcode) && !(i.opcode is Int || i.opcode is Iret) && !(i.opcode is Load
                && i.imm == 0x3E) ==> pc == add16(s.pc, 2)
        }),
{
    crate::text::lemma_add16_add16(s.pc, 2, 2);
}

fn is_alu_op(op: Opcode) -> (b: bool)
    ensures
        b == is_alu(op),
{
    match op {
        Opcode::Add | Opcode::Sub | Opcode::Addi | Opcode::Mul | Opcode::Div | Opcode::Mod
        | Opcode::And | Opcode::Or | Opcode::Xor | Opcode::Not | Opcode::Neg | Opcode::Shl
        | Opcode::Shr | Opcode::Rol | Opcode::Ror | Opcode::Cmp => true,
        _ => false,
    }
}

fn is_flow_op(op: Opcode) -> (b: bool)
    ensures
        b == is_flow(op),
{
    match op {
        Opcode::Jmp | Opcode::Jz | Opcode::Jnz | Opcode::Jc | Opcode::Jn | Opcode::Call | Opcode::Ret => true,
        _ => false,
    }
}

fn is_system_op(op: Opcode) -> (b: bool)
    ensures
        b == is_system(op),
{
    match op {
        Opcode::Push | Opcode::Pop | Opcode::Int | Opcode::Iret | Opcode::Ei | Opcode::Di
        | Opcode::Halt => true,
        _ => false,
    }
}

impl Cpu {
    /// Well-formedness: the memory holds 64 KB.
    pub open spec fn wf(&self) -> bool {
        self.mem.wf()
    }

    /// A core in its reset state: registers zero, PC at `PROG_BASE`, SP at
    /// `STACK_BASE`, all flags clear (interrupts disabled until EI), memory zero, cache empty, running.
    pub fn new() -> (c: Cpu)
        ensures
            c.wf(),
            c@ == initial_model(),
    {
        let cpu = Cpu {
            regs: [0; 4],
            pc: PROG_BASE,
            sp: STACK_BASE,
            flags: Flags::default(),
            mem: Memory::new(),
            cache: Cache::new(),
            pending_irq: None,
            state: CpuState::Running,
            cycles: 0,
            print_cache_stats: false,
        };
        assert(cpu.regs@ =~= seq![0u16, 0u16, 0u16, 0u16]);
        cpu
    }

    /// Turns on the cache statistics report at HALT.
    pub fn enable_cache_stats(&mut self)
        ensures
            final(self)@ == (CpuModel { print_cache_stats: true, ..old(self)@ }),
            final(self).mem == old(self).mem,
    {
        self.print_cache_stats = true;
    }

    /// Loads a program at `PROG_BASE` and points the program counter at it.
    pub fn load_program(&mut self, bytes: &[u8])
        requires
            old(self).wf(),
        ensures
            final(self).wf(),
            final(self)@ == (CpuModel {
                mem: load_bytes(old(self)@.mem, PROG_BASE, bytes@),
                pc: PROG_BASE,
                ..old(self)@
            }),
    {
        self.mem.load(PROG_BASE, bytes);
        self.pc = PROG_BASE;
    }

    /// Loads bytes at `addr`; nothing else changes.
    pub fn load_at(&mut self, addr: u16, bytes: &[u8])
        requires
            old(self).wf(),
        ensures
            final(self).wf(),
            final(self)@ == (CpuModel { mem: load_bytes(old(self)@.mem, addr, bytes@), ..old(self)@ }),
    {
        self.mem.load(addr, bytes);
    }

    /// Raises interrupt `irq` (replacing any pending one).
    pub fn raise_irq(&mut self, irq: u8)
        ensures
            final(self)@ == (CpuModel { pending_irq: Some(irq), ..old(self)@ }),
            final(self).mem == old(self).mem,
    {
        self.pending_irq = Some(irq);
    }

    fn mem_read(&mut self, addr: u16) -> (w: u16)
        requires
            old(self).wf(),
            read_room(old(self)@.cache.stats, 1),
        ensures
            final(self).wf(),
            (final(self)@, w) == m_read(old(self)@, addr),
    {
        self.cache.read_word(addr, &self.mem)
    }

    fn mem_write(&mut self, addr: u16, val: u16)
        requires
            old(self).wf(),
            old(self)@.cache.stats.writes < u64::MAX,
        ensures
            final(self).wf(),
            final(self)@ == m_write(old(self)@, addr, val),
    {
        self.cache.write_word(addr, val, &mut self.mem)
    }

    fn fetch_word(&mut self) -> (w: u16)
        requires
            old(self).wf(),
        ensures
            final(self).wf(),
            w == word_at(old(self)@.mem, old(self).pc),
            final(self)@ == (CpuModel { pc: add16(old(self).pc, 2), ..old(self)@ }),
    {
        let w = self.mem.read_word(self.pc);
        self.pc = self.pc.wrapping_add(2);
        w
    }

    fn push(&mut self, val: u16)
        requires
            old(self).wf(),
            old(self)@.cache.stats.writes < u64::MAX,
        ensures
            final(self).wf(),
            final(self)@ == m_push(old(self)@, val),
    {
        self.sp = self.sp.wrapping_sub(2);
        self.mem_write(self.sp, val);
    }

    fn pop(&mut self) -> (v: u16)
        requires
            old(self).wf(),
            read_room(old(self)@.cache.stats, 1),
        ensures
            final(self).wf(),
            (final(self)@, v) == m_pop(old(self)@),
    {
        let val = self.mem_read(self.sp);
        self.sp = self.sp.wrapping_add(2);
        val
    }

    #[verifier::spinoff_prover]
    fn handle_interrupt(&mut self, irq: u8)
        requires
            old(self).wf(),
            stats_room(old(self)@.cache.stats, 2),
        ensures
            final(self).wf(),
            final(self)@ == m_interrupt(old(self)@, irq),
    {
        let ghost s0 = self@;
        self.flags.set_int_enable(false);
        let saved_pc = self.pc;
        let saved_flags = self.flags.0 as u16;
        let ghost f = with_bit(s0.flags, IE_BIT, false);
        assert(self@ == (CpuModel { flags: f, ..s0 }));
        self.push(saved_flags);
        let ghost s1 = self@;
        assert(s1 == m_push(CpuModel { flags: f, ..s0 }, f as u16));
        self.push(saved_pc);
        let ghost s2 = self@;
        assert(s2 == m_push(s1, s0.pc));
        assert(read_room(s2.cache.stats, 1));
        let vector_addr = IVT_BASE.wrapping_add((irq as u16) * 2);
        assert(vector_addr == add16(IVT_BASE, 2 * irq));
        self.pc = self.mem_read(vector_addr);
    }

    /// Executes one step: dispatches a pending interrupt when interrupts are
    /// enabled, does nothing when the core is not running, and otherwise
    /// fetches, decodes and executes one instruction (see `step_spec`).
    pub fn step(&mut self) -> (r: Result<CpuState, String>)
        requires
            old(self).wf(),
            step_room(old(self)@),
        ensures
            final(self).wf(),
            (final(self)@, err_view(r)) == step_spec(old(self)@),
    {
        if self.flags.int_enable() && self.pending_irq.is_some() {
            let irq = self.pending_irq.unwrap();
            self.pending_irq = None;
            self.handle_interrupt(irq);
            self.state = CpuState::Running;
            self.cycles += 6;
            return Ok(self.state);
        }
        if self.state != CpuState::Running {
            return Ok(self.state);
        }
        let word = self.fetch_word();
        let next_word = self.mem.read_word(self.pc);
        let instr = match Instruction::decode(word, next_word) {
            Ok(i) => i,
            Err(e) => {
                return Err(e);
            },
        };
        match self.execute(instr) {
            Ok(()) => {},
            Err(e) => {
                return Err(e);
            },
        }
        self.cycles += 1;
        Ok(self.state)
    }

    /// Steps until the core stops running, `max_cycles` is reached or a step
    /// fails (see `run_spec`); returns the final state or the error.
    pub fn run(&mut self, max_cycles: u64) -> (r: Result<CpuState, String>)
        requires
            old(self).wf(),
            run_room(old(self)@, max_cycles),
        ensures
            final(self).wf(),
            (final(self)@, err_view(r)) == run_spec(old(self)@, max_cycles),
    {
        while self.state == CpuState::Running && self.cycles < max_cycles
            invariant
                self.wf(),
                run_room(self@, max_cycles),
                run_spec(self@, max_cycles) == run_spec(old(self)@, max_cycles),
            decreases (if self.cycles < max_cycles {
                max_cycles - self.cycles
            } else {
                0
            }),
        {
            let ghost before = self@;
            match self.step() {
                Ok(_) => {},
                Err(e) => {
                    return Err(e);
                },
            }
            proof {
                lemma_step_growth(before);
            }
        }
        Ok(self.state)
    }

    /// Registers, flags and the cycle count as text (see `dump_text`).
    pub fn dump_state(&self) -> (s: String)
        ensures
            s@ == dump_text(self@),
    {
        let mut out = String::new();
        out.append("PC=");
        push_hex(&mut out, self.pc as u32, 4);
        out.append("  SP=");
        push_hex(&mut out, self.sp as u32, 4);
        out.append("  FLAGS=");
        let ft = self.flags.to_text();
        out.append(ft.as_str());
        out.append("\n  R0=");
        push_hex(&mut out, self.regs[0] as u32, 4);
        out.append("  R1=");
        push_hex(&mut out, self.regs[1] as u32, 4);
        out.append("  R2=");
        push_hex(&mut out, self.regs[2] as u32, 4);
        out.append("  R3=");
        push_hex(&mut out, self.regs[3] as u32, 4);
        out.append("\n  Cycles: ");
        push_dec(&mut out, self.cycles);
        out
    }

    fn execute(&mut self, i: Instruction) -> (r: Result<(), String>)
        requires
            old(self).wf(),
            stats_room(old(self)@.cache.stats, 2),
            i.dst < 4,
            i.src < 4,
        ensures
            final(self).wf(),
            exec_spec(old(self)@, i) is Ok ==> (r is Ok && final(self)@ == exec_spec(old(self)@, i)->Ok_0),
            exec_spec(old(self)@, i) is Err ==> (final(self)@ == old(self)@ && err_view(r) == Err::<
                (),
                Seq<char>,
            >(exec_spec(old(self)@, i)->Err_0)),
    {
        if is_alu_op(i.opcode) {
            self.execute_alu(i)
        } else if is_flow_op(i.opcode) {
            self.execute_flow(i);
            Ok(())
        } else if is_system_op(i.opcode) {
            self.execute_system(i);
            Ok(())
        } else {
            self.execute_data(i);
            Ok(())
        }
    }

    fn execute_data(&mut self, i: Instruction)
        requires
            old(self).wf(),
            stats_room(old(self)@.cache.stats, 2),
            i.dst < 4,
            i.src < 4,
        ensures
            final(self).wf(),
            final(self)@ == exec_data(old(self)@, i),
    {
        let dst = i.dst as usize;
        let src = i.src as usize;
        match i.opcode {
            Opcode::Load => {
                if i.imm == 0x3E {
                    let wide = self.mem.read_word(self.pc);
                    self.pc = self.pc.wrapping_add(2);
                    self.regs[dst] = wide;
                } else {
                    self.regs[dst] = i.imm;
                }
            },
            Opcode::LoadM => {
                let addr = self.regs[src];
                let w = self.mem_read(addr);
                self.regs[dst] = w;
            },
            Opcode::Store => {
                let addr = self.regs[dst];
                let v = self.regs[src];
                self.mem_write(addr, v);
            },
            Opcode::Mov => {
                self.regs[dst] = self.regs[src];
            },
            Opcode::Swap => {
                let a = self.regs[dst];
                let b = self.regs[src];
                self.regs[dst] = b;
                self.regs[src] = a;
            },
            _ => {},
        }
        proof {
            assert(final(self)@.regs =~= exec_data(old(self)@, i).regs);
        }
    }

    fn execute_alu(&mut self, i: Instruction) -> (r: Result<(), String>)
        requires
            old(self).wf(),
            is_alu(i.opcode),
            i.dst < 4,
            i.src < 4,
        ensures
            final(self).wf(),
            exec_alu(old(self)@, i) is Ok ==> (r is Ok && final(self)@ == exec_alu(old(self)@, i)->Ok_0),
            exec_alu(old(self)@, i) is Err ==> (final(self)@ == old(self)@ && err_view(r) == Err::<
                (),
                Seq<char>,
            >(exec_alu(old(self)@, i)->Err_0)),
    {
        let dst = i.dst as usize;
        let src = i.src as usize;
        let a = self.regs[dst];
        let b = self.regs[src];
        if b == 0 {
            match i.opcode {
                Opcode::Div => {
                    return Err(String::from_str("Division by zero"));
                },
                Opcode::Mod => {
                    return Err(String::from_str("Modulo by zero"));
                },
                _ => {},
            }
        }
        let (r, f) = alu(i.opcode, a, b, i.imm, self.flags);
        match i.opcode {
            Opcode::Cmp => {},
            _ => {
                self.regs[dst] = r;
            },
        }
        self.flags = f;
        proof {
            assert(final(self)@.regs =~= exec_alu(old(self)@, i)->Ok_0.regs);
        }
        Ok(())
    }

    fn execute_flow(&mut self, i: Instruction)
        requires
            old(self).wf(),
            stats_room(old(self)@.cache.stats, 2),
            is_flow(i.opcode),
        ensures
            final(self).wf(),
            final(self)@ == exec_flow(old(self)@, i),
    {
        match i.opcode {
            Opcode::Jmp => {
                self.pc = i.imm;
            },
            Opcode::Jz => {
                if self.flags.zero() {
                    self.pc = i.imm;
                } else {
                    self.pc = self.pc.wrapping_add(2);
                }
            },
            Opcode::Jnz => {
                if !self.flags.zero() {
                    self.pc = i.imm;
                } else {
                    self.pc = self.pc.wrapping_add(2);
                }
            },
            Opcode::Jc => {
                if self.flags.carry() {
                    self.pc = i.imm;
                } else {
                    self.pc = self.pc.wrapping_add(2);
                }
            },
            Opcode::Jn => {
                if self.flags.negative() {
                    self.pc = i.imm;
                } else {
                    self.pc = self.pc.wrapping_add(2);
                }
            },
            Opcode::Call => {
                let ret_addr = self.pc.wrapping_add(2);
                self.push(ret_addr);
                self.pc = i.imm;
            },
            Opcode::Ret => {
                self.pc = self.pop();
            },
            _ => {},
        }
    }

    fn execute_system(&mut self, i: Instruction)
        requires
            old(self).wf(),
            stats_room(old(self)@.cache.stats, 2),
            is_system(i.opcode),
            i.dst < 4,
        ensures
            final(self).wf(),
            final(self)@ == exec_system(old(self)@, i),
    {
        let dst = i.dst as usize;
        match i.opcode {
            Opcode::Push => {
                let v = self.regs[dst];
                self.push(v);
            },
            Opcode::Pop => {
                let v = self.pop();
                self.regs[dst] = v;
                proof {
                    assert(final(self)@.regs =~= exec_system(old(self)@, i).regs);
                }
            },
            Opcode::Int => {
                self.handle_interrupt(i.imm as u8);
            },
            Opcode::Iret => {
                self.pc = self.pop();
                let f = self.pop();
                self.flags = Flags(f as u8);
            },
            Opcode::Ei => {
                self.flags.set_int_enable(true);
            },
            Opcode::Di => {
                self.flags.set_int_enable(false);
            },
            Opcode::Halt => {
                self.state = CpuState::Halted;
            },
            _ => {},
        }
    }
}

impl Default for Cpu {
    fn default() -> (c: Cpu)
        ensures
            c.wf(),
            c@ == initial_model(),
    {
        Cpu::new()
    }
}

} // verus!

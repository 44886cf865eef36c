//! Five-stage in-order pipeline: IF, ID, EX, MEM, WB.
//!
//! Each tick runs the stages in reverse order (WB first, so a register
//! written back this cycle is read by EX in the same cycle). Registers are
//! read at the start of EX. Hazards:
//! - register RAW: the instruction in IF/ID stalls while an instruction in
//!   EX/MEM or MEM/WB will still write one of its source registers (both
//!   registers of a SWAP count);
//! - flags RAW: a conditional branch, ROL or ROR stalls while a
//!   flag-writing instruction is in EX/MEM or MEM/WB (the rotates compute
//!   their value from the carry, so EX must see it committed, as the
//!   single-cycle core does); other results commit only the flag bits they
//!   write, so the bits they keep are never stale;
//! - control: branches resolve in EX; a taken branch flushes IF/ID and ID/EX
//!   (two cycles) and nothing is fetched that cycle.
//! A wide LOAD (immediate field 0x3E) is fetched with its value word, as
//! jumps are. CALL, RET, PUSH and POP reach the stack through the cache in
//! EX; LOADM and STORE reach memory through it in MEM. HALT in EX starts
//! drain mode: nothing more is decoded or fetched, and the pipeline halts
//! when HALT commits in WB.
//!
//! `operands_ready` is the invariant that makes stalls a matter of timing
//! only: the instruction about to execute never reads a register or flag
//! that an older uncommitted instruction will still write
//! (`law_operands_ready_kept`, `law_ex_reads_committed`).

use vstd::prelude::*;
use crate::alu::{alu, alu_spec, is_alu, sext6, rotl17, rotr17, with_carry};
use crate::cache::{Cache, CacheModel, CacheLine, cache_read, cache_write, read_room, stats_room, zero_stats, NUM_LINES};
use crate::flags::{Flags, bit_of, with_bit, arith_flags, logic_flags, shift_flags, signed_overflow, sign, C_BIT, IE_BIT, N_BIT, Z_BIT};
use crate::isa::{Instruction, Opcode, opcode_of, opcode_name, field_opcode, field_dst, field_src, field_imm6, uses_address_word};
use crate::memory::{Memory, word_at, store_word, load_bytes, MEM_SIZE};
use crate::text::{add16, err_view, hex, bool_text, push_hex, push_bool};
use crate::cpu::{PROG_BASE, STACK_BASE, CpuModel, exec_spec};

verus! {

/// IF/ID pipeline register: the fetched word, the word after it and the
/// address it was fetched from.
#[derive(Debug, Clone, Copy)]
pub struct IfIdReg {
    pub word: u16,
    pub next_word: u16,
    pub pc: u16,
    pub valid: bool,
}

/// ID/EX pipeline register: decoded fields only; registers are read in EX.
#[derive(Debug, Clone, Copy)]
pub struct IdExReg {
    pub opcode: Option<Opcode>,
    pub dst: u8,
    pub src: u8,
    pub imm: u16,
    pub pc: u16,
    pub valid: bool,
}

/// EX/MEM pipeline register.
#[derive(Debug, Clone, Copy)]
pub struct ExMemReg {
    pub opcode: Option<Opcode>,
    pub dst: u8,
    pub src: u8,
    pub alu_result: u16,
    pub store_val: u16,
    pub new_flags: Option<Flags>,
    pub valid: bool,
    pub branch_taken: bool,
    pub branch_target: u16,
    pub is_halt: bool,
}

/// MEM/WB pipeline register.
#[derive(Debug, Clone, Copy)]
pub struct MemWbReg {
    pub opcode: Option<Opcode>,
    pub dst: u8,
    pub src: u8,
    pub wb_val: u16,
    pub wb_val2: u16,
    pub new_flags: Option<Flags>,
    pub valid: bool,
    pub is_halt: bool,
}

/// An empty IF/ID register.
pub open spec fn empty_if_id() -> IfIdReg {
    IfIdReg { word: 0, next_word: 0, pc: 0, valid: false }
}

/// An empty ID/EX register (a bubble).
pub open spec fn empty_id_ex() -> IdExReg {
    IdExReg { opcode: None, dst: 0, src: 0, imm: 0, pc: 0, valid: false }
}

/// An empty EX/MEM register.
pub open spec fn empty_ex_mem() -> ExMemReg {
    ExMemReg {
        opcode: None,
        dst: 0,
        src: 0,
        alu_result: 0,
        store_val: 0,
        new_flags: None,
        valid: false,
        branch_taken: false,
        branch_target: 0,
        is_halt: false,
    }
}

/// An empty MEM/WB register.
pub open spec fn empty_mem_wb() -> MemWbReg {
    MemWbReg { opcode: None, dst: 0, src: 0, wb_val: 0, wb_val2: 0, new_flags: None, valid: false, is_halt: false }
}

fn new_if_id() -> (r: IfIdReg)
    ensures
        r == empty_if_id(),
{
    IfIdReg { word: 0, next_word: 0, pc: 0, valid: false }
}

fn new_id_ex() -> (r: IdExReg)
    ensures
        r == empty_id_ex(),
{
    IdExReg { opcode: None, dst: 0, src: 0, imm: 0, pc: 0, valid: false }
}

fn new_ex_mem() -> (r: ExMemReg)
    ensures
        r == empty_ex_mem(),
{
    ExMemReg {
        opcode: None,
        dst: 0,
        src: 0,
        alu_result: 0,
        store_val: 0,
        new_flags: None,
        valid: false,
        branch_taken: false,
        branch_target: 0,
        is_halt: false,
    }
}

fn new_mem_wb() -> (r: MemWbReg)
    ensures
        r == empty_mem_wb(),
{
    MemWbReg { opcode: None, dst: 0, src: 0, wb_val: 0, wb_val2: 0, new_flags: None, valid: false, is_halt: false }
}

/// Pipeline counters.
#[derive(Debug, Clone, Copy)]
pub struct PipelineStats {
    pub cycles: u64,
    pub instructions_committed: u64,
    pub data_stall_cycles: u64,
    pub control_flush_cycles: u64,
}

impl Default for PipelineStats {
    fn default() -> (s: PipelineStats)
        ensures
            s == (PipelineStats { cycles: 0, instructions_committed: 0, data_stall_cycles: 0, control_flush_cycles: 0 }),
    {
        PipelineStats { cycles: 0, instructions_committed: 0, data_stall_cycles: 0, control_flush_cycles: 0 }
    }
}

impl PipelineStats {
    /// The cycles an ideal pipeline would need: one per committed
    /// instruction plus four to fill the pipeline (saturating).
    pub fn ideal_cycles(&self) -> (n: u64)
        ensures
            n == if self.instructions_committed + 4 > u64::MAX {
                u64::MAX
            } else {
                (self.instructions_committed + 4) as u64
            },
    {
        self.instructions_committed.saturating_add(4)
    }
}

/// The abstract state of the pipelined core.
pub struct PipeModel {
    pub regs: Seq<u16>,
    pub pc: u16,
    pub sp: u16,
    pub flags: u8,
    pub mem: Seq<u8>,
    pub cache: CacheModel,
    pub if_id: IfIdReg,
    pub id_ex: IdExReg,
    pub ex_mem: ExMemReg,
    pub mem_wb: MemWbReg,
    pub drain_mode: bool,
    pub halted: bool,
    pub stats: PipelineStats,
    pub print_stats: bool,
}

/// Instructions that write a register in WB.
pub open spec fn writes_reg(op: Opcode) -> bool {
    match op {
        Opcode::Load | Opcode::LoadM | Opcode::Mov | Opcode::Add | Opcode::Sub | Opcode::Addi
        | Opcode::Mul | Opcode::Div | Opcode::Mod | Opcode::And | Opcode::Or | Opcode::Xor
        | Opcode::Not | Opcode::Neg | Opcode::Shl | Opcode::Shr | Opcode::Rol | Opcode::Ror
        | Opcode::Swap | Opcode::Pop => true,
        _ => false,
    }
}

/// Instructions that write the condition flags in WB.
pub open spec fn writes_flags(op: Opcode) -> bool {
    match op {
        Opcode::Add | Opcode::Sub | Opcode::Addi | Opcode::Mul | Opcode::Div | Opcode::Mod
        | Opcode::And | Opcode::Or | Opcode::Xor | Opcode::Not | Opcode::Neg | Opcode::Shl
        | Opcode::Shr | Opcode::Rol | Opcode::Ror | Opcode::Cmp => true,
        _ => false,
    }
}

/// The instructions that read the flags: conditional branches, and the
/// rotates (through the carry).
pub open spec fn reads_flags(op: Opcode) -> bool {
    match op {
        Opcode::Jz | Opcode::Jnz | Opcode::Jc | Opcode::Jn | Opcode::Rol | Opcode::Ror => true,
        _ => false,
    }
}

/// The registers an instruction reads: two, one, or none (255 marks "no
/// register"), and whether the second is used.
pub open spec fn source_regs(op: Opcode, dst: u8, src: u8) -> (u8, u8, bool) {
    match op {
        Opcode::Add | Opcode::Sub | Opcode::Mul | Opcode::Div | Opcode::Mod | Opcode::And
        | Opcode::Or | Opcode::Xor | Opcode::Cmp | Opcode::Swap | Opcode::Store => (dst, src, true),
        Opcode::Not | Opcode::Neg | Opcode::Shl | Opcode::Shr | Opcode::Rol | Opcode::Ror
        | Opcode::Addi | Opcode::Push => (dst, 255, false),
        Opcode::LoadM | Opcode::Mov => (src, 255, false),
        _ => (255, 255, false),
    }
}

/// Whether an instruction with opcode `op` and fields `dst`, `src` writes
/// register `reg` (SWAP writes both of its registers).
pub open spec fn writes_to(op: Option<Opcode>, dst: u8, src: u8, reg: u8) -> bool {
    op is Some && writes_reg(op->0) && (dst == reg || (op->0 == Opcode::Swap && src == reg))
}

/// Whether an instruction in EX/MEM or MEM/WB will still write `reg`.
pub open spec fn reg_in_flight(p: PipeModel, reg: u8) -> bool {
    reg != 255 && ((p.ex_mem.valid && writes_to(p.ex_mem.opcode, p.ex_mem.dst, p.ex_mem.src, reg))
        || (p.mem_wb.valid && writes_to(p.mem_wb.opcode, p.mem_wb.dst, p.mem_wb.src, reg)))
}

/// Whether an instruction in EX/MEM or MEM/WB will still write the flags.
pub open spec fn flags_in_flight(p: PipeModel) -> bool {
    (p.ex_mem.valid && p.ex_mem.opcode is Some && writes_flags(p.ex_mem.opcode->0)) || (
    p.mem_wb.valid && p.mem_wb.opcode is Some && writes_flags(p.mem_wb.opcode->0))
}

/// Whether the instruction in IF/ID must stall.
pub open spec fn hazard(p: PipeModel) -> bool {
    if !p.if_id.valid {
        false
    } else {
        let w = p.if_id.word;
        match opcode_of(field_opcode(w)) {
            None => false,
            Some(op) => if reads_flags(op) && flags_in_flight(p) {
                true
            } else {
                let (sa, sb, needs_b) = source_regs(op, field_dst(w), field_src(w));
                if needs_b {
                    reg_in_flight(p, sa) || reg_in_flight(p, sb)
                } else {
                    reg_in_flight(p, sa)
                }
            },
        }
    }
}

/// The FLAGS bits an ALU result writes: Z, N and C, and V as well for the
/// arithmetic operations.
pub open spec fn written_flags(op: Opcode) -> u8 {
    match op {
        Opcode::Add | Opcode::Sub | Opcode::Addi | Opcode::Cmp | Opcode::Neg => 0x0Fu8,
        _ => 0x07u8,
    }
}

/// Committing the flags `new` that EX computed for `op`: the bits `op`
/// writes come from `new`, every other bit (V after a logic or shift
/// result, IE) stays as committed so far, which may have changed since EX.
pub open spec fn commit_flags(op: Opcode, new: u8, cur: u8) -> u8 {
    (new & written_flags(op)) | (cur & !written_flags(op))
}

/// Write-back: commits flags (the bits the instruction writes) and registers of the instruction
/// in MEM/WB and counts it; says whether it was HALT.
pub open spec fn wb_spec(p: PipeModel) -> (PipeModel, bool) {
    if !p.mem_wb.valid || p.mem_wb.opcode is None {
        (p, false)
    } else {
        let op = p.mem_wb.opcode->0;
        let flags = match p.mem_wb.new_flags {
            Some(f) => commit_flags(op, f.0, p.flags),
            None => p.flags,
        };
        let regs = if writes_reg(op) {
            if op == Opcode::Swap {
                p.regs.update(p.mem_wb.dst as int, p.mem_wb.wb_val).update(p.mem_wb.src as int, p.mem_wb.wb_val2)
            } else {
                p.regs.update(p.mem_wb.dst as int, p.mem_wb.wb_val)
            }
        } else {
            p.regs
        };
        (
            PipeModel {
                flags,
                regs,
                stats: PipelineStats {
                    instructions_committed: (p.stats.instructions_committed + 1) as u64,
                    ..p.stats
                },
                mem_wb: empty_mem_wb(),
                ..p
            },
            p.mem_wb.is_halt,
        )
    }
}

/// Memory access: LOADM reads and STORE writes through the cache; the
/// instruction moves to MEM/WB.
pub open spec fn mem_spec(p: PipeModel) -> PipeModel {
    if !p.ex_mem.valid || p.ex_mem.opcode is None {
        PipeModel { mem_wb: empty_mem_wb(), ..p }
    } else {
        let e = p.ex_mem;
        let op = e.opcode->0;
        let (cache, mem, wb_val) = if op == Opcode::LoadM {
            let (c, w) = cache_read(p.cache, p.mem, e.alu_result);
            (c, p.mem, w)
        } else if op == Opcode::Store {
            (cache_write(p.cache, e.alu_result, e.store_val), store_word(p.mem, e.alu_result, e.store_val), e.alu_result)
        } else {
            (p.cache, p.mem, e.alu_result)
        };
        PipeModel {
            cache,
            mem,
            mem_wb: MemWbReg {
                opcode: Some(op),
                dst: e.dst,
                src: e.src,
                wb_val,
                wb_val2: e.store_val,
                new_flags: e.new_flags,
                valid: true,
                is_halt: e.is_halt,
            },
            ..p
        }
    }
}

/// Instructions that act in EX on the program counter, the stack pointer,
/// memory or interrupt enable.
pub open spec fn is_control(op: Opcode) -> bool {
    match op {
        Opcode::Jmp | Opcode::Jz | Opcode::Jnz | Opcode::Jc | Opcode::Jn | Opcode::Call | Opcode::Ret
        | Opcode::Push | Opcode::Pop | Opcode::Ei | Opcode::Di | Opcode::Halt => true,
        _ => false,
    }
}

/// EX for the other instructions: the ALU result, the store value and the
/// new flags (CMP produces flags only; NOP, INT and IRET do nothing).
pub open spec fn ex_values(op: Opcode, a: u16, b: u16, imm: u16, f: u8) -> (u16, u16, Option<Flags>) {
    match op {
        Opcode::Load => (imm, b, None),
        Opcode::LoadM => (b, b, None),
        Opcode::Store => (a, b, None),
        Opcode::Mov => (b, b, None),
        Opcode::Swap => (b, a, None),
        Opcode::Cmp => (0, b, Some(Flags(alu_spec(op, a, b, imm, f).1))),
        _ => if is_alu(op) {
            let (r, nf) = alu_spec(op, a, b, imm, f);
            (r, b, Some(Flags(nf)))
        } else {
            (0, b, None)
        },
    }
}

/// A conditional branch in EX: taken (program counter to `target`) or not.
pub open spec fn ex_branch(p: PipeModel, taken: bool, target: u16) -> (PipeModel, bool, u16, u16, bool) {
    if taken {
        (PipeModel { pc: target, ..p }, true, target, 0, false)
    } else {
        (p, false, 0, 0, false)
    }
}

/// EX for control instructions: the new state, whether a branch is taken,
/// its target, the ALU result and whether this is HALT. CALL, RET, PUSH and
/// POP access the stack through the cache, as the core does.
pub open spec fn ex_control(p: PipeModel, op: Opcode, a: u16, imm: u16, at: u16) -> (PipeModel, bool, u16, u16, bool) {
    match op {
        Opcode::Jmp => (PipeModel { pc: imm, ..p }, true, imm, 0, false),
        Opcode::Jz => ex_branch(p, bit_of(p.flags, Z_BIT), imm),
        Opcode::Jnz => ex_branch(p, !bit_of(p.flags, Z_BIT), imm),
        Opcode::Jc => ex_branch(p, bit_of(p.flags, C_BIT), imm),
        Opcode::Jn => ex_branch(p, bit_of(p.flags, N_BIT), imm),
        Opcode::Call => {
            let sp = add16(p.sp, -2);
            let ret = add16(at, 4);
            (
                PipeModel { sp, cache: cache_write(p.cache, sp, ret), mem: store_word(p.mem, sp, ret), pc: imm, ..p },
                true,
                imm,
                0,
                false,
            )
        },
        Opcode::Ret => {
            let (c, ret) = cache_read(p.cache, p.mem, p.sp);
            (PipeModel { cache: c, sp: add16(p.sp, 2), pc: ret, ..p }, true, ret, 0, false)
        },
        Opcode::Push => {
            let sp = add16(p.sp, -2);
            (PipeModel { sp, cache: cache_write(p.cache, sp, a), mem: store_word(p.mem, sp, a), ..p }, false, 0, 0, false)
        },
        Opcode::Pop => {
            let (c, v) = cache_read(p.cache, p.mem, p.sp);
            (PipeModel { cache: c, sp: add16(p.sp, 2), ..p }, false, 0, v, false)
        },
        Opcode::Ei => (PipeModel { flags: with_bit(p.flags, IE_BIT, true), ..p }, false, 0, 0, false),
        Opcode::Di => (PipeModel { flags: with_bit(p.flags, IE_BIT, false), ..p }, false, 0, 0, false),
        Opcode::Halt => (PipeModel { drain_mode: true, ..p }, false, 0, 0, true),
        _ => (p, false, 0, 0, false),
    }
}

/// Execute: reads registers, computes, resolves branches; the instruction
/// moves to EX/MEM. Says whether a branch was taken, or fails on DIV or MOD
/// by zero (leaving the state as it was).
pub open spec fn ex_spec(p: PipeModel) -> Result<(PipeModel, bool), Seq<char>> {
    if !p.id_ex.valid || p.id_ex.opcode is None {
        Ok((PipeModel { ex_mem: empty_ex_mem(), ..p }, false))
    } else {
        let d = p.id_ex;
        let op = d.opcode->0;
        let a = p.regs[d.dst as int];
        let b = p.regs[d.src as int];
        if op == Opcode::Div && b == 0 {
            Err("Pipeline: division by zero"@)
        } else if op == Opcode::Mod && b == 0 {
            Err("Pipeline: modulo by zero"@)
        } else if is_control(op) {
            let (q, taken, target, res, halt) = ex_control(p, op, a, d.imm, d.pc);
            Ok(
                (
                    PipeModel {
                        ex_mem: ExMemReg {
                            opcode: Some(op),
                            dst: d.dst,
                            src: d.src,
                            alu_result: res,
                            store_val: b,
                            new_flags: None,
                            valid: true,
                            branch_taken: taken,
                            branch_target: target,
                            is_halt: halt,
                        },
                        ..q
                    },
                    taken,
                ),
            )
        } else {
            let (res, sv, nf) = ex_values(op, a, b, d.imm, p.flags);
            Ok(
                (
                    PipeModel {
                        ex_mem: ExMemReg {
                            opcode: Some(op),
                            dst: d.dst,
                            src: d.src,
                            alu_result: res,
                            store_val: sv,
                            new_flags: nf,
                            valid: true,
                            branch_taken: false,
                            branch_target: 0,
                            is_halt: false,
                        },
                        ..p
                    },
                    false,
                ),
            )
        }
    }
}

/// The immediate ID passes on: for the wide LOAD (immediate field 0x3E)
/// the word after the instruction, else the decoded immediate.
pub open spec fn wide_imm(i: Instruction, next: u16) -> u16 {
    if i.opcode == Opcode::Load && i.imm == 0x3E {
        next
    } else {
        i.imm
    }
}

/// Decode: the word in IF/ID is decoded into ID/EX (an empty IF/ID gives a
/// bubble); an unknown opcode fails, leaving the state as it was.
pub open spec fn id_spec(p: PipeModel) -> Result<PipeModel, Seq<char>> {
    if !p.if_id.valid {
        Ok(PipeModel { id_ex: empty_id_ex(), ..p })
    } else {
        match crate::isa::decode_spec(p.if_id.word, p.if_id.next_word) {
            None => Err(crate::isa::unknown_opcode_text(field_opcode(p.if_id.word))),
            Some(i) => Ok(
                PipeModel {
                    id_ex: IdExReg {
                        opcode: Some(i.opcode),
                        dst: i.dst,
                        src: i.src,
                        imm: wide_imm(i, p.if_id.next_word),
                        pc: p.if_id.pc,
                        valid: true,
                    },
                    ..p
                },
            ),
        }
    }
}

/// Fetch: the word at the program counter and the word after it go to
/// IF/ID; the program counter moves past the instruction (four bytes for
/// jumps and calls, two otherwise).
pub open spec fn if_spec(p: PipeModel) -> PipeModel {
    let word = word_at(p.mem, p.pc);
    let two = match opcode_of(field_opcode(word)) {
        Some(op) => uses_address_word(op) || (op == Opcode::Load && field_imm6(word) == 0x3E),
        None => false,
    };
    PipeModel {
        if_id: IfIdReg { word, next_word: word_at(p.mem, add16(p.pc, 2)), pc: p.pc, valid: true },
        pc: add16(p.pc, if two { 4 } else { 2 }),
        ..p
    }
}

/// One clock tick: the state after it and what `tick` returns.
pub open spec fn tick_spec(p: PipeModel) -> (PipeModel, Result<(), Seq<char>>) {
    if p.halted {
        (p, Ok(()))
    } else {
        let p0 = PipeModel { stats: PipelineStats { cycles: (p.stats.cycles + 1) as u64, ..p.stats }, ..p };
        let (p1, halt) = wb_spec(p0);
        if halt {
            (PipeModel { halted: true, ..p1 }, Ok(()))
        } else {
            let p2 = mem_spec(p1);
            match ex_spec(p2) {
                Err(e) => (p2, Err(e)),
                Ok((p3, taken)) => if taken {
                    (
                        PipeModel {
                            if_id: empty_if_id(),
                            id_ex: empty_id_ex(),
                            stats: PipelineStats {
                                control_flush_cycles: (p3.stats.control_flush_cycles + 2) as u64,
                                ..p3.stats
                            },
                            ..p3
                        },
                        Ok(()),
                    )
                } else if hazard(p3) {
                    (
                        PipeModel {
                            id_ex: empty_id_ex(),
                            stats: PipelineStats {
                                data_stall_cycles: (p3.stats.data_stall_cycles + 1) as u64,
                                ..p3.stats
                            },
                            ..p3
                        },
                        Ok(()),
                    )
                } else if p3.drain_mode {
                    (PipeModel { if_id: empty_if_id(), id_ex: empty_id_ex(), ..p3 }, Ok(()))
                } else {
                    match id_spec(p3) {
                        Err(e) => (p3, Err(e)),
                        Ok(p4) => (if_spec(p4), Ok(())),
                    }
                },
            }
        }
    }
}

/// The pipeline counters and cache counters have room for one tick.
pub open spec fn tick_room(p: PipeModel) -> bool {
    &&& p.stats.cycles < u64::MAX
    &&& p.stats.instructions_committed < u64::MAX
    &&& p.stats.data_stall_cycles < u64::MAX
    &&& p.stats.control_flush_cycles <= u64::MAX - 2
    &&& stats_room(p.cache.stats, 2)
}

/// `run` can go on to `max` cycles without a counter passing `u64::MAX`:
/// each tick counts one cycle, commits or stalls at most once, counts at
/// most two flush cycles and makes at most two accesses through the cache
/// (one in MEM, one for the stack in EX).
pub open spec fn run_room(p: PipeModel, max: u64) -> bool {
    p.stats.cycles < max ==> {
        let n = max - p.stats.cycles;
        &&& p.stats.instructions_committed + n <= u64::MAX
        &&& p.stats.data_stall_cycles + n <= u64::MAX
        &&& p.stats.control_flush_cycles + 2 * n <= u64::MAX
        &&& stats_room(p.cache.stats, 2 * n)
    }
}

/// Running: ticks until halted or `max` cycles; the first error ends it.
pub open spec fn run_spec(p: PipeModel, max: u64) -> (PipeModel, Result<(), Seq<char>>)
    decreases (if p.stats.cycles < max {
        max - p.stats.cycles
    } else {
        0
    }),
{
    if !p.halted && p.stats.cycles < max {
        let (q, r) = tick_spec(p);
        match r {
            Err(e) => (q, Err(e)),
            Ok(_) => if q.stats.cycles > p.stats.cycles {
                run_spec(q, max)
            } else {
                (q, Ok(()))
            },
        }
    } else {
        (p, Ok(()))
    }
}

/// Every register index held in a pipeline register names one of R0-R3.
pub open spec fn regs_ok(p: PipeModel) -> bool {
    &&& p.regs.len() == 4
    &&& p.id_ex.dst < 4 && p.id_ex.src < 4
    &&& p.ex_mem.dst < 4 && p.ex_mem.src < 4
    &&& p.mem_wb.dst < 4 && p.mem_wb.src < 4
}

/// The text of an optional opcode as `{:?}` prints it.
pub open spec fn opt_op_text(o: Option<Opcode>) -> Seq<char> {
    match o {
        Some(op) => "Some("@ + opcode_name(op) + ")"@,
        None => "None"@,
    }
}

/// The text `dump_pipeline` returns.
pub open spec fn pipeline_text(p: PipeModel) -> Seq<char> {
    "IF/ID v="@ + bool_text(p.if_id.valid) + " pc="@ + hex(p.if_id.pc as nat, 4) + " | ID/EX v="@
        + bool_text(p.id_ex.valid) + " op="@ + opt_op_text(p.id_ex.opcode) + " | EX/MEM v="@
        + bool_text(p.ex_mem.valid) + " op="@ + opt_op_text(p.ex_mem.opcode) + " res="@ + hex(
        p.ex_mem.alu_result as nat,
        4,
    ) + " | MEM/WB v="@ + bool_text(p.mem_wb.valid) + " op="@ + opt_op_text(p.mem_wb.opcode)
        + " wb="@ + hex(p.mem_wb.wb_val as nat, 4)
}

/// The state of a freshly created pipeline.
pub open spec fn initial_pipe() -> PipeModel {
    PipeModel {
        regs: seq![0u16, 0u16, 0u16, 0u16],
        pc: PROG_BASE,
        sp: STACK_BASE,
        flags: 0,
        mem: Seq::new(MEM_SIZE as nat, |i: int| 0u8),
        cache: CacheModel {
            lines: Seq::new(NUM_LINES as nat, |i: int| CacheLine { valid: false, tag: 0, data: 0 }),
            stats: zero_stats(),
        },
        if_id: empty_if_id(),
        id_ex: empty_id_ex(),
        ex_mem: empty_ex_mem(),
        mem_wb: empty_mem_wb(),
        drain_mode: false,
        halted: false,
        stats: PipelineStats { cycles: 0, instructions_committed: 0, data_stall_cycles: 0, control_flush_cycles: 0 },
        print_stats: false,
    }
}

/// The pipelined core.
pub struct PipelinedCpu {
    pub regs: [u16; 4],
    pub pc: u16,
    pub sp: u16,
    pub flags: Flags,
    pub mem: Memory,
    pub cache: Cache,
    pub if_id: IfIdReg,
    pub id_ex: IdExReg,
    pub ex_mem: ExMemReg,
    pub mem_wb: MemWbReg,
    pub drain_mode: bool,
    pub halted: bool,
    pub stats: PipelineStats,
    /// Whether statistics are reported when the pipeline halts.
    pub print_stats: bool,
}

impl View for PipelinedCpu {
    type V = PipeModel;

    open spec fn view(&self) -> PipeModel {
        PipeModel {
            regs: self.regs@,
            pc: self.pc,
            sp: self.sp,
            flags: self.flags.0,
            mem: self.mem@,
            cache: self.cache@,
            if_id: self.if_id,
            id_ex: self.id_ex,
            ex_mem: self.ex_mem,
            mem_wb: self.mem_wb,
            drain_mode: self.drain_mode,
            halted: self.halted,
            stats: self.stats,
            print_stats: self.print_stats,
        }
    }
}

/// Every counter of `b` is at least that of `a` and at most `n` above it.
pub open spec fn pipe_stats_grow(a: PipelineStats, b: PipelineStats, n: int) -> bool {
    &&& a.instructions_committed <= b.instructions_committed <= a.instructions_committed + n
    &&& a.data_stall_cycles <= b.data_stall_cycles <= a.data_stall_cycles + n
    &&& a.control_flush_cycles <= b.control_flush_cycles <= a.control_flush_cycles + n
}

/// A tick of a pipeline that has not halted counts exactly one cycle (also
/// when it fails), commits at most one instruction, stalls at most once,
/// adds at most two to the flush counter and at most two to any cache
/// counter.
pub proof fn law_tick_counts(p: PipeModel)
    requires
        !p.halted,
        tick_room(p),
    ensures
        tick_spec(p).0.stats.cycles == p.stats.cycles + 1,
        pipe_stats_grow(p.stats, tick_spec(p).0.stats, 2),
        tick_spec(p).0.stats.instructions_committed <= p.stats.instructions_committed + 1,
        tick_spec(p).0.stats.data_stall_cycles <= p.stats.data_stall_cycles + 1,
        crate::cpu::stats_grow(p.cache.stats, tick_spec(p).0.cache.stats, 2),
{
}

/// A tick of a halted pipeline changes nothing.
pub proof fn law_halted_tick_is_noop(p: PipeModel)
    requires
        p.halted,
    ensures
        tick_spec(p) == (p, Ok::<(), Seq<char>>(())),
{
}

/// Write-back never changes the Interrupt Enable flag, even when it commits
/// new flags.
pub proof fn law_commit_keeps_ie(p: PipeModel)
    ensures
        bit_of(wb_spec(p).0.flags, IE_BIT) == bit_of(p.flags, IE_BIT),
{
    match p.mem_wb.new_flags {
        Some(f) => {
            let cur = p.flags;
            let n = f.0;
            assert(((((n & 0x0Fu8) | (cur & !0x0Fu8)) >> 7u8) & 1u8 == 1u8) == ((cur >> 7u8) & 1u8 == 1u8)
                && ((((n & 0x07u8) | (cur & !0x07u8)) >> 7u8) & 1u8 == 1u8) == ((cur >> 7u8) & 1u8
                == 1u8)) by (bit_vector);
        },
        None => {},
    }
}

/// A branch taken in EX sends the program counter to the target it records
/// in EX/MEM.
pub proof fn law_taken_branch_redirects(p: PipeModel)
    requires
        ex_spec(p) is Ok,
        ex_spec(p)->Ok_0.1,
    ensures
        ex_spec(p)->Ok_0.0.pc == ex_spec(p)->Ok_0.0.ex_mem.branch_target,
        ex_spec(p)->Ok_0.0.ex_mem.branch_taken,
{
}

/// When a tick stalls on a hazard, fetch is frozen: the program counter and
/// IF/ID keep their values and ID/EX receives a bubble. When a tick takes a
/// branch, IF/ID and ID/EX are flushed.
pub proof fn law_stall_and_flush(p: PipeModel)
    requires
        !p.halted,
        tick_room(p),
    ensures
        tick_spec(p).0.stats.data_stall_cycles == p.stats.data_stall_cycles + 1 ==> {
            &&& tick_spec(p).0.pc == p.pc
            &&& tick_spec(p).0.if_id == p.if_id
            &&& !tick_spec(p).0.id_ex.valid
        },
        tick_spec(p).0.stats.control_flush_cycles == p.stats.control_flush_cycles + 2 ==> {
            &&& !tick_spec(p).0.if_id.valid
            &&& !tick_spec(p).0.id_ex.valid
        },
{
}

fn writes_reg_op(op: Opcode) -> (b: bool)
    ensures
        b == writes_reg(op),
{
    match op {
        Opcode::Load | Opcode::LoadM | Opcode::Mov | Opcode::Add | Opcode::Sub | Opcode::Addi
        | Opcode::Mul | Opcode::Div | Opcode::Mod | Opcode::And | Opcode::Or | Opcode::Xor
        | Opcode::Not | Opcode::Neg | Opcode::Shl | Opcode::Shr | Opcode::Rol | Opcode::Ror
        | Opcode::Swap | Opcode::Pop => true,
        _ => false,
    }
}

fn writes_flags_op(op: Opcode) -> (b: bool)
    ensures
        b == writes_flags(op),
{
    match op {
        Opcode::Add | Opcode::Sub | Opcode::Addi | Opcode::Mul | Opcode::Div | Opcode::Mod
        | Opcode::And | Opcode::Or | Opcode::Xor | Opcode::Not | Opcode::Neg | Opcode::Shl
        | Opcode::Shr | Opcode::Rol | Opcode::Ror | Opcode::Cmp => true,
        _ => false,
    }
}

/// Whether the instruction `d` in ID/EX reads nothing that the instruction
/// `(valid, op, dst, src)` ahead of it writes: none of its source
/// registers, and the flags only if that instruction leaves them alone.
pub open spec fn reads_clear_of(d: IdExReg, valid: bool, op: Option<Opcode>, dst: u8, src: u8) -> bool {
    (d.valid && d.opcode is Some && valid) ==> {
        let (sa, sb, needs_b) = source_regs(d.opcode->0, d.dst, d.src);
        &&& (sa != 255 ==> !writes_to(op, dst, src, sa))
        &&& (needs_b && sb != 255 ==> !writes_to(op, dst, src, sb))
        &&& (reads_flags(d.opcode->0) ==> !(op is Some && writes_flags(op->0)))
    }
}

/// The pipeline invariant behind "stalls change timing only": the
/// instruction waiting in ID/EX reads no register or flag that the
/// instruction in EX/MEM, the only older one still uncommitted when it
/// executes, will write.
pub open spec fn operands_ready(p: PipeModel) -> bool {
    reads_clear_of(p.id_ex, p.ex_mem.valid, p.ex_mem.opcode, p.ex_mem.dst, p.ex_mem.src)
}

/// A fresh pipeline has its operands ready (nothing is in flight).
pub proof fn law_initial_operands_ready()
    ensures
        operands_ready(initial_pipe()),
{
}

/// EX reads committed values: in a tick that does not halt, by the time
/// EX runs (after WB and MEM), the only older instruction not yet committed
/// is the one MEM just passed to MEM/WB, and it writes nothing that the
/// instruction in ID/EX reads.
pub proof fn law_ex_reads_committed(p: PipeModel)
    requires
        operands_ready(p),
    ensures
        ({
            let p0 = PipeModel { stats: PipelineStats { cycles: (p.stats.cycles + 1) as u64, ..p.stats }, ..p };
            let p2 = mem_spec(wb_spec(p0).0);
            &&& p2.id_ex == p.id_ex
            &&& (p.ex_mem.valid && p.ex_mem.opcode is Some) ==> (p2.mem_wb.valid && p2.mem_wb.opcode
                == p.ex_mem.opcode)
            &&& reads_clear_of(p2.id_ex, p2.mem_wb.valid, p2.mem_wb.opcode, p2.mem_wb.dst, p2.mem_wb.src)
        }),
{
}

/// Every tick that succeeds keeps the operands of the next instruction
/// ready: the hazard check stalls (or a flush or drain empties ID/EX)
/// whenever they would not be.
pub proof fn law_operands_ready_kept(p: PipeModel)
    requires
        operands_ready(p),
        tick_spec(p).1 is Ok,
    ensures
        operands_ready(tick_spec(p).0),
{
}

/// A run that ends without error keeps the operands ready.
pub proof fn law_run_keeps_operands_ready(p: PipeModel, max: u64)
    requires
        operands_ready(p),
        run_spec(p, max).1 is Ok,
    ensures
        operands_ready(run_spec(p, max).0),
    decreases (if p.stats.cycles < max {
        max - p.stats.cycles
    } else {
        0
    }),
{
    if !p.halted && p.stats.cycles < max {
        let (q, r) = tick_spec(p);
        if r is Ok {
            law_operands_ready_kept(p);
            if q.stats.cycles > p.stats.cycles {
                law_run_keeps_operands_ready(q, max);
            }
        }
    }
}

/// A conditional branch in EX tests the committed flag it names: JZ is
/// taken when the Zero bit (bit 0 of FLAGS) is set, JNZ when it is clear,
/// JC when the Carry bit (bit 1) is set, JN when the Negative bit (bit 2)
/// is set. A taken branch moves the program counter to the target; one not
/// taken leaves it where fetch put it.
pub proof fn law_branch_tests_named_flag(p: PipeModel)
    requires
        p.id_ex.valid,
        p.id_ex.opcode matches Some(op) && (op == Opcode::Jz || op == Opcode::Jnz || op == Opcode::Jc
            || op == Opcode::Jn),
    ensures
        ex_spec(p) is Ok,
        ({
            let op = p.id_ex.opcode->0;
            let f = p.flags;
            let taken = ex_spec(p)->Ok_0.1;
            &&& op == Opcode::Jz ==> taken == (f & 1u8 != 0u8)
            &&& op == Opcode::Jnz ==> taken == (f & 1u8 == 0u8)
            &&& op == Opcode::Jc ==> taken == (f & 2u8 != 0u8)
            &&& op == Opcode::Jn ==> taken == (f & 4u8 != 0u8)
            &&& ex_spec(p)->Ok_0.0.pc == if taken {
                p.id_ex.imm
            } else {
                p.pc
            }
        }),
{
    let f = p.flags;
    assert(((f >> 0u8) & 1u8 == 1u8) == (f & 1u8 != 0u8)) by (bit_vector);
    assert(((f >> 1u8) & 1u8 == 1u8) == (f & 2u8 != 0u8)) by (bit_vector);
    assert(((f >> 2u8) & 1u8 == 1u8) == (f & 4u8 != 0u8)) by (bit_vector);
}

/// An arithmetic flag update changes only bits 0 to 3 of FLAGS.
proof fn lemma_arith_mask(f: u8, r: u16, c: bool, v: bool)
    ensures
        (arith_flags(f, r, c, v) & 0x0Fu8) | (f & !0x0Fu8) == arith_flags(f, r, c, v),
{
    let z = r == 0;
    let n = sign(r);
    assert((with_bit(with_bit(with_bit(with_bit(f, 0u8, z), 2u8, n), 1u8, c), 3u8, v) & 0x0Fu8) | (f
        & !0x0Fu8) == with_bit(with_bit(with_bit(with_bit(f, 0u8, z), 2u8, n), 1u8, c), 3u8, v))
        by (bit_vector);
}

/// A logic or shift flag update changes only bits 0 to 2 of FLAGS.
proof fn lemma_shift_mask(f: u8, r: u16, c: bool)
    ensures
        (shift_flags(f, r, c) & 0x07u8) | (f & !0x07u8) == shift_flags(f, r, c),
        (logic_flags(f, r) & 0x07u8) | (f & !0x07u8) == logic_flags(f, r),
{
    let z = r == 0;
    let n = sign(r);
    assert((with_bit(with_bit(with_bit(f, 0u8, z), 2u8, n), 1u8, c) & 0x07u8) | (f & !0x07u8)
        == with_bit(with_bit(with_bit(f, 0u8, z), 2u8, n), 1u8, c)) by (bit_vector);
    assert((with_bit(with_bit(with_bit(f, 0u8, z), 2u8, n), 1u8, false) & 0x07u8) | (f & !0x07u8)
        == with_bit(with_bit(with_bit(f, 0u8, z), 2u8, n), 1u8, false)) by (bit_vector);
}

/// The pipeline's EX computes what the single-cycle core computes: for an
/// ALU instruction other than CMP, on equal registers and flags, the value
/// EX passes on for write-back is what the core writes to the destination,
/// and the flags committed from it at write-back are the core's flags.
pub proof fn law_ex_alu_matches_core(p: PipeModel, s: CpuModel)
    requires
        p.id_ex.valid,
        p.id_ex.opcode matches Some(op) && is_alu(op) && op != Opcode::Cmp,
        p.regs.len() == 4,
        p.id_ex.dst < 4,
        p.id_ex.src < 4,
        s.regs == p.regs,
        s.flags == p.flags,
        exec_spec(
            s,
            Instruction { opcode: p.id_ex.opcode->0, dst: p.id_ex.dst, src: p.id_ex.src, imm: p.id_ex.imm },
        ) is Ok,
    ensures
        ex_spec(p) is Ok,
        ({
            let op = p.id_ex.opcode->0;
            let i = Instruction { opcode: op, dst: p.id_ex.dst, src: p.id_ex.src, imm: p.id_ex.imm };
            let t = exec_spec(s, i)->Ok_0;
            let e = ex_spec(p)->Ok_0.0.ex_mem;
            let nf = e.new_flags->0;
            &&& e.alu_result == t.regs[p.id_ex.dst as int]
            &&& e.new_flags is Some
            &&& commit_flags(op, nf.0, s.flags) == t.flags
        }),
{
    let op = p.id_ex.opcode->0;
    let a = p.regs[p.id_ex.dst as int];
    let b = p.regs[p.id_ex.src as int];
    let imm = p.id_ex.imm;
    let f = p.flags;
    let (r, g) = alu_spec(op, a, b, imm, f);
    match op {
        Opcode::Add => lemma_arith_mask(f, r, a + b > 0xFFFF, signed_overflow(a, b, r, false)),
        Opcode::Sub => lemma_arith_mask(f, r, a >= b, signed_overflow(a, b, r, true)),
        Opcode::Addi => {
            let x = sext6(imm);
            lemma_arith_mask(f, r, a + x < 0 || a + x > 0xFFFF, signed_overflow(a, (x % 65536) as u16, r, false));
        },
        Opcode::Neg => lemma_arith_mask(f, r, a != 0, a == 0x8000),
        Opcode::Shl => {
            let wide = (a as u32) << ((imm % 16) as u32);
            lemma_shift_mask(f, r, wide > 0xFFFF);
        },
        Opcode::Shr => {
            let k = (imm % 16) as u16;
            lemma_shift_mask(f, r, k > 0 && (a >> ((k - 1) as u16)) & 1u16 == 1u16);
        },
        Opcode::Rol => {
            let y = rotl17(with_carry(a, bit_of(f, C_BIT)), (imm % 16) as u32);
            lemma_shift_mask(f, r, y >= 65536);
        },
        Opcode::Ror => {
            let y = rotr17(with_carry(a, bit_of(f, C_BIT)), (imm % 16) as u32);
            lemma_shift_mask(f, r, y >= 65536);
        },
        _ => lemma_shift_mask(f, r, false),
    }
}

fn written_flags_op(op: Opcode) -> (m: u8)
    ensures
        m == written_flags(op),
{
    match op {
        Opcode::Add | Opcode::Sub | Opcode::Addi | Opcode::Cmp | Opcode::Neg => 0x0F,
        _ => 0x07,
    }
}

fn reads_flags_op(op: Opcode) -> (b: bool)
    ensures
        b == reads_flags(op),
{
    match op {
        Opcode::Jz | Opcode::Jnz | Opcode::Jc | Opcode::Jn | Opcode::Rol | Opcode::Ror => true,
        _ => false,
    }
}

fn source_regs_op(op: Opcode, dst: u8, src: u8) -> (r: (u8, u8, bool))
    ensures
        r == source_regs(op, dst, src),
{
    match op {
        Opcode::Add | Opcode::Sub | Opcode::Mul | Opcode::Div | Opcode::Mod | Opcode::And
        | Opcode::Or | Opcode::Xor | Opcode::Cmp | Opcode::Swap | Opcode::Store => (dst, src, true),
        Opcode::Not | Opcode::Neg | Opcode::Shl | Opcode::Shr | Opcode::Rol | Opcode::Ror
        | Opcode::Addi | Opcode::Push => (dst, 255, false),
        Opcode::LoadM | Opcode::Mov => (src, 255, false),
        _ => (255, 255, false),
    }
}

fn is_control_op(op: Opcode) -> (b: bool)
    ensures
        b == is_control(op),
{
    match op {
        Opcode::Jmp | Opcode::Jz | Opcode::Jnz | Opcode::Jc | Opcode::Jn | Opcode::Call | Opcode::Ret
        | Opcode::Push | Opcode::Pop | Opcode::Ei | Opcode::Di | Opcode::Halt => true,
        _ => false,
    }
}

fn is_alu_op(op: Opcode) -> (b: bool)
    ensures
        b == is_alu(op),
{
    match op {
        Opcode::Add | Opcode::Sub | Opcode::Addi | Opcode::Mul | Opcode::Div | Opcode::Mod
        | Opcode::And | Opcode::Or | Opcode::Xor | Opcode::Not | Opcode::Neg | Opcode::Shl
        | Opcode::Shr | Opcode::Rol | Opcode::Ror | Opcode::Cmp => true,
        _ => false,
    }
}

fn ex_compute(op: Opcode, a: u16, b: u16, imm: u16, flags: Flags) -> (r: (u16, u16, Option<Flags>))
    requires
        !is_control(op),
        (op == Opcode::Div || op == Opcode::Mod) ==> b != 0,
    ensures
        r == ex_values(op, a, b, imm, flags.0),
{
    match op {
        Opcode::Load => (imm, b, None),
        Opcode::LoadM => (b, b, None),
        Opcode::Store => (a, b, None),
        Opcode::Mov => (b, b, None),
        Opcode::Swap => (b, a, None),
        Opcode::Cmp => {
            let (_r, f) = alu(op, a, b, imm, flags);
            (0, b, Some(f))
        },
        _ => {
            if is_alu_op(op) {
                let (r, f) = alu(op, a, b, imm, flags);
                (r, b, Some(f))
            } else {
                (0, b, None)
            }
        },
    }
}

fn opt_writes_reg(o: Option<Opcode>) -> (b: bool)
    ensures
        b == (o is Some && writes_reg(o->0)),
{
    match o {
        Some(op) => writes_reg_op(op),
        None => false,
    }
}

fn opt_writes_flags(o: Option<Opcode>) -> (b: bool)
    ensures
        b == (o is Some && writes_flags(o->0)),
{
    match o {
        Some(op) => writes_flags_op(op),
        None => false,
    }
}

fn push_opt_op(s: &mut String, o: Option<Opcode>)
    ensures
        final(s)@ == old(s)@ + opt_op_text(o),
{
    match o {
        Some(op) => {
            s.append("Some(");
            s.append(op.name());
            s.append(")");
        },
        None => {
            s.append("None");
        },
    }
}

impl PipelinedCpu {
    /// Well-formedness: 64 KB of memory and register indices within R0-R3.
    pub open spec fn wf(&self) -> bool {
        self.mem.wf() && regs_ok(self@)
    }

    /// A pipeline in its reset state: empty stages, registers zero, PC at
    /// `PROG_BASE`, SP at `STACK_BASE`, all flags clear (interrupts disabled until EI), counters zero.
    pub fn new() -> (c: PipelinedCpu)
        ensures
            c.wf(),
            c@ == initial_pipe(),
    {
        let cpu = PipelinedCpu {
            regs: [0; 4],
            pc: PROG_BASE,
            sp: STACK_BASE,
            flags: Flags::default(),
            mem: Memory::new(),
            cache: Cache::new(),
            if_id: new_if_id(),
            id_ex: new_id_ex(),
            ex_mem: new_ex_mem(),
            mem_wb: new_mem_wb(),
            drain_mode: false,
            halted: false,
            stats: PipelineStats::default(),
            print_stats: false,
        };
        assert(cpu.regs@ =~= seq![0u16, 0u16, 0u16, 0u16]);
        cpu
    }

    /// Loads a program at `PROG_BASE` and points the program counter at it.
    pub fn load_program(&mut self, bytes: &[u8])
        requires
            old(self).wf(),
        ensures
            final(self).wf(),
            final(self)@ == (PipeModel {
                mem: load_bytes(old(self)@.mem, PROG_BASE, bytes@),
                pc: PROG_BASE,
                ..old(self)@
            }),
    {
        self.mem.load(PROG_BASE, bytes);
        self.pc = PROG_BASE;
    }

    /// Turns on the statistics report at HALT.
    pub fn enable_stats(&mut self)
        ensures
            final(self)@ == (PipeModel { print_stats: true, ..old(self)@ }),
            final(self).mem == old(self).mem,
    {
        self.print_stats = true;
    }

    fn reg_in_flight(&self, reg: u8) -> (b: bool)
        ensures
            b == reg_in_flight(self@, reg),
    {
        if reg == 255 {
            return false;
        }
        (self.ex_mem.valid && opt_writes_reg(self.ex_mem.opcode) && (self.ex_mem.dst == reg || (
        self.ex_mem.opcode == Some(Opcode::Swap) && self.ex_mem.src == reg))) || (self.mem_wb.valid
            && opt_writes_reg(self.mem_wb.opcode) && (self.mem_wb.dst == reg || (self.mem_wb.opcode
            == Some(Opcode::Swap) && self.mem_wb.src == reg)))
    }

    fn flags_in_flight(&self) -> (b: bool)
        ensures
            b == flags_in_flight(self@),
    {
        (self.ex_mem.valid && opt_writes_flags(self.ex_mem.opcode)) || (self.mem_wb.valid
            && opt_writes_flags(self.mem_wb.opcode))
    }

    fn check_data_hazard(&self) -> (b: bool)
        ensures
            b == hazard(self@),
    {
        if !self.if_id.valid {
            return false;
        }
        let instr = match Instruction::decode(self.if_id.word, 0) {
            Ok(i) => i,
            Err(_) => {
                return false;
            },
        };
        if reads_flags_op(instr.opcode) && self.flags_in_flight() {
            return true;
        }
        let (sa, sb, needs_b) = source_regs_op(instr.opcode, instr.dst, instr.src);
        if needs_b {
            self.reg_in_flight(sa) || self.reg_in_flight(sb)
        } else {
            self.reg_in_flight(sa)
        }
    }

    /// One clock tick: WB, MEM, EX, then hazard handling, ID and IF (see
    /// `tick_spec`). Does nothing once halted.
    pub fn tick(&mut self) -> (r: Result<(), String>)
        requires
            old(self).wf(),
            tick_room(old(self)@),
        ensures
            final(self).wf(),
            (final(self)@, err_view(r)) == tick_spec(old(self)@),
    {
        if self.halted {
            return Ok(());
        }
        self.stats.cycles += 1;
        let halt_committed = self.stage_wb();
        if halt_committed {
            self.halted = true;
            return Ok(());
        }
        self.stage_mem();
        let (branch_taken, _) = match self.stage_ex() {
            Ok(x) => x,
            Err(e) => {
                return Err(e);
            },
        };
        if branch_taken {
            self.if_id = new_if_id();
            self.id_ex = new_id_ex();
            self.stats.control_flush_cycles += 2;
            return Ok(());
        }
        let stall = self.check_data_hazard();
        if stall {
            self.stats.data_stall_cycles += 1;
            self.id_ex = new_id_ex();
            return Ok(());
        }
        if self.drain_mode {
            self.if_id = new_if_id();
            self.id_ex = new_id_ex();
            return Ok(());
        }
        match self.stage_id() {
            Ok(()) => {},
            Err(e) => {
                return Err(e);
            },
        }
        self.stage_if();
        Ok(())
    }

    fn stage_if(&mut self)
        requires
            old(self).wf(),
        ensures
            final(self).wf(),
            final(self)@ == if_spec(old(self)@),
    {
        let word = self.mem.read_word(self.pc);
        let next_word = self.mem.read_word(self.pc.wrapping_add(2));
        let fetched_pc = self.pc;
        let is_two_word = match Instruction::decode(word, 0) {
            Ok(i) => match i.opcode {
                Opcode::Jmp | Opcode::Jz | Opcode::Jnz | Opcode::Jc | Opcode::Jn | Opcode::Call => true,
                Opcode::Load => i.imm == 0x3E,
                _ => false,
            },
            Err(_) => false,
        };
        self.if_id = IfIdReg { word, next_word, pc: fetched_pc, valid: true };
        if is_two_word {
            self.pc = self.pc.wrapping_add(4);
        } else {
            self.pc = self.pc.wrapping_add(2);
        }
    }

    fn stage_id(&mut self) -> (r: Result<(), String>)
        requires
            old(self).wf(),
        ensures
            final(self).wf(),
            id_spec(old(self)@) is Ok ==> (r is Ok && final(self)@ == id_spec(old(self)@)->Ok_0),
            id_spec(old(self)@) is Err ==> (final(self)@ == old(self)@ && err_view(r) == Err::<
                (),
                Seq<char>,
            >(id_spec(old(self)@)->Err_0)),
    {
        if !self.if_id.valid {
            self.id_ex = new_id_ex();
            return Ok(());
        }
        let instr = match Instruction::decode(self.if_id.word, self.if_id.next_word) {
            Ok(i) => i,
            Err(e) => {
                return Err(e);
            },
        };
        let imm = if instr.opcode == Opcode::Load && instr.imm == 0x3E {
            self.if_id.next_word
        } else {
            instr.imm
        };
        self.id_ex = IdExReg {
            opcode: Some(instr.opcode),
            dst: instr.dst,
            src: instr.src,
            imm,
            pc: self.if_id.pc,
            valid: true,
        };
        Ok(())
    }

    fn ex_control(&mut self, op: Opcode, a: u16, imm: u16, at: u16) -> (r: (bool, u16, u16, bool))
        requires
            old(self).wf(),
            is_control(op),
            read_room(old(self)@.cache.stats, 1),
            old(self)@.cache.stats.writes < u64::MAX,
        ensures
            final(self).wf(),
            (final(self)@, r.0, r.1, r.2, r.3) == ex_control(old(self)@, op, a, imm, at),
    {
        match op {
            Opcode::Jmp => {
                self.pc = imm;
                (true, imm, 0, false)
            },
            Opcode::Jz => {
                if self.flags.zero() {
                    self.pc = imm;
                    (true, imm, 0, false)
                } else {
                    (false, 0, 0, false)
                }
            },
            Opcode::Jnz => {
                if !self.flags.zero() {
                    self.pc = imm;
                    (true, imm, 0, false)
                } else {
                    (false, 0, 0, false)
                }
            },
            Opcode::Jc => {
                if self.flags.carry() {
                    self.pc = imm;
                    (true, imm, 0, false)
                } else {
                    (false, 0, 0, false)
                }
            },
            Opcode::Jn => {
                if self.flags.negative() {
                    self.pc = imm;
                    (true, imm, 0, false)
                } else {
                    (false, 0, 0, false)
                }
            },
            Opcode::Call => {
                let ret = at.wrapping_add(4);
                self.sp = self.sp.wrapping_sub(2);
                self.cache.write_word(self.sp, ret, &mut self.mem);
                self.pc = imm;
                (true, imm, 0, false)
            },
            Opcode::Ret => {
                let ret = self.cache.read_word(self.sp, &self.mem);
                self.sp = self.sp.wrapping_add(2);
                self.pc = ret;
                (true, ret, 0, false)
            },
            Opcode::Push => {
                self.sp = self.sp.wrapping_sub(2);
                self.cache.write_word(self.sp, a, &mut self.mem);
                (false, 0, 0, false)
            },
            Opcode::Pop => {
                let v = self.cache.read_word(self.sp, &self.mem);
                self.sp = self.sp.wrapping_add(2);
                (false, 0, v, false)
            },
            Opcode::Ei => {
                self.flags.set_int_enable(true);
                (false, 0, 0, false)
            },
            Opcode::Di => {
                self.flags.set_int_enable(false);
                (false, 0, 0, false)
            },
            Opcode::Halt => {
                self.drain_mode = true;
                (false, 0, 0, true)
            },
            _ => (false, 0, 0, false),
        }
    }

    fn stage_ex(&mut self) -> (r: Result<(bool, u16), String>)
        requires
            old(self).wf(),
            read_room(old(self)@.cache.stats, 1),
            old(self)@.cache.stats.writes < u64::MAX,
        ensures
            final(self).wf(),
            ex_spec(old(self)@) is Ok ==> (r is Ok && final(self)@ == ex_spec(old(self)@)->Ok_0.0
                && r->Ok_0.0 == ex_spec(old(self)@)->Ok_0.1 && r->Ok_0.1 == final(self).ex_mem.branch_target),
            ex_spec(old(self)@) is Err ==> (final(self)@ == old(self)@ && err_view(r) == Err::<
                (bool, u16),
                Seq<char>,
            >(ex_spec(old(self)@)->Err_0)),
    {
        if !self.id_ex.valid {
            self.ex_mem = new_ex_mem();
            return Ok((false, 0));
        }
        let opcode = match self.id_ex.opcode {
            Some(o) => o,
            None => {
                self.ex_mem = new_ex_mem();
                return Ok((false, 0));
            },
        };
        let a = self.regs[self.id_ex.dst as usize];
        let b = self.regs[self.id_ex.src as usize];
        let imm = self.id_ex.imm;
        let dst = self.id_ex.dst;
        let src = self.id_ex.src;
        if b == 0 {
            match opcode {
                Opcode::Div => {
                    return Err(String::from_str("Pipeline: division by zero"));
                },
                Opcode::Mod => {
                    return Err(String::from_str("Pipeline: modulo by zero"));
                },
                _ => {},
            }
        }
        if is_control_op(opcode) {
            let at = self.id_ex.pc;
            let (taken, target, res, halt) = self.ex_control(opcode, a, imm, at);
            self.ex_mem = ExMemReg {
                opcode: Some(opcode),
                dst,
                src,
                alu_result: res,
                store_val: b,
                new_flags: None,
                valid: true,
                branch_taken: taken,
                branch_target: target,
                is_halt: halt,
            };
            Ok((taken, target))
        } else {
            let (res, sv, nf) = ex_compute(opcode, a, b, imm, self.flags);
            self.ex_mem = ExMemReg {
                opcode: Some(opcode),
                dst,
                src,
                alu_result: res,
                store_val: sv,
                new_flags: nf,
                valid: true,
                branch_taken: false,
                branch_target: 0,
                is_halt: false,
            };
            Ok((false, 0))
        }
    }

    fn stage_mem(&mut self)
        requires
            old(self).wf(),
            read_room(old(self)@.cache.stats, 1),
            old(self)@.cache.stats.writes < u64::MAX,
        ensures
            final(self).wf(),
            final(self)@ == mem_spec(old(self)@),
    {
        if !self.ex_mem.valid {
            self.mem_wb = new_mem_wb();
            return ;
        }
        let opcode = match self.ex_mem.opcode {
            Some(o) => o,
            None => {
                self.mem_wb = new_mem_wb();
                return ;
            },
        };
        let mut wb_val = self.ex_mem.alu_result;
        let wb_val2 = self.ex_mem.store_val;
        match opcode {
            Opcode::LoadM => {
                wb_val = self.cache.read_word(self.ex_mem.alu_result, &self.mem);
            },
            Opcode::Store => {
                self.cache.write_word(self.ex_mem.alu_result, self.ex_mem.store_val, &mut self.mem);
            },
            _ => {},
        }
        self.mem_wb = MemWbReg {
            opcode: Some(opcode),
            dst: self.ex_mem.dst,
            src: self.ex_mem.src,
            wb_val,
            wb_val2,
            new_flags: self.ex_mem.new_flags,
            valid: true,
            is_halt: self.ex_mem.is_halt,
        };
    }

    fn stage_wb(&mut self) -> (halt: bool)
        requires
            old(self).wf(),
            old(self).stats.instructions_committed < u64::MAX,
        ensures
            final(self).wf(),
            (final(self)@, halt) == wb_spec(old(self)@),
    {
        if !self.mem_wb.valid {
            return false;
        }
        let opcode = match self.mem_wb.opcode {
            Some(o) => o,
            None => {
                return false;
            },
        };
        let is_halt = self.mem_wb.is_halt;
        match self.mem_wb.new_flags {
            Some(f) => {
                let m = written_flags_op(opcode);
                self.flags = Flags((f.0 & m) | (self.flags.0 & !m));
            },
            None => {},
        }
        if writes_reg_op(opcode) {
            self.regs[self.mem_wb.dst as usize] = self.mem_wb.wb_val;
            match opcode {
                Opcode::Swap => {
                    self.regs[self.mem_wb.src as usize] = self.mem_wb.wb_val2;
                },
                _ => {},
            }
        }
        self.stats.instructions_committed += 1;
        self.mem_wb = new_mem_wb();
        proof {
            assert(final(self)@.regs =~= wb_spec(old(self)@).0.regs);
        }
        is_halt
    }

    /// Ticks until halted or `max_cycles` is reached, stopping at the first
    /// error (see `run_spec`).
    pub fn run(&mut self, max_cycles: u64) -> (r: Result<(), String>)
        requires
            old(self).wf(),
            run_room(old(self)@, max_cycles),
        ensures
            final(self).wf(),
            (final(self)@, err_view(r)) == run_spec(old(self)@, max_cycles),
    {
        while !self.halted && self.stats.cycles < max_cycles
            invariant
                self.wf(),
                run_room(self@, max_cycles),
                run_spec(self@, max_cycles) == run_spec(old(self)@, max_cycles),
            decreases max_cycles - self.stats.cycles,
        {
            let ghost before = self@;
            proof {
                law_tick_counts(before);
            }
            match self.tick() {
                Ok(()) => {},
                Err(e) => {
                    return Err(e);
                },
            }
        }
        Ok(())
    }

    /// The state of the four pipeline registers as one line of text (see
    /// `pipeline_text`).
    pub fn dump_pipeline(&self) -> (s: String)
        ensures
            s@ == pipeline_text(self@),
    {
        let mut out = String::new();
        out.append("IF/ID v=");
        push_bool(&mut out, self.if_id.valid);
        out.append(" pc=");
        push_hex(&mut out, self.if_id.pc as u32, 4);
        out.append(" | ID/EX v=");
        push_bool(&mut out, self.id_ex.valid);
        out.append(" op=");
        push_opt_op(&mut out, self.id_ex.opcode);
        out.append(" | EX/MEM v=");
        push_bool(&mut out, self.ex_mem.valid);
        out.append(" op=");
        push_opt_op(&mut out, self.ex_mem.opcode);
        out.append(" res=");
        push_hex(&mut out, self.ex_mem.alu_result as u32, 4);
        out.append(" | MEM/WB v=");
        push_bool(&mut out, self.mem_wb.valid);
        out.append(" op=");
        push_opt_op(&mut out, self.mem_wb.opcode);
        out.append(" wb=");
        push_hex(&mut out, self.mem_wb.wb_val as u32, 4);
        out
    }
}

impl Default for PipelinedCpu {
    fn default() -> (c: PipelinedCpu)
        ensures
            c.wf(),
            c@ == initial_pipe(),
    {
        PipelinedCpu::new()
    }
}

} // verus!

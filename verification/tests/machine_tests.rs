use cpu16::assembler::Assembler;
use cpu16::cache::{Cache, CacheStats};
use cpu16::cpu::{Cpu, CpuState, PROG_BASE, STACK_BASE};
use cpu16::flags::Flags;
use cpu16::isa::{Instruction, Opcode};
use cpu16::memory::Memory;
use cpu16::pipeline::PipelinedCpu;

fn to_bytes(words: &[u16]) -> Vec<u8> {
    words.iter().flat_map(|w| w.to_le_bytes()).collect()
}

fn bare(op: Opcode) -> u16 {
    (op.code() as u16) << 10
}

// ── Memory ───────────────────────────────────────────────────────────────────

#[test]
fn memory_words_are_little_endian() {
    let mut m = Memory::new();
    m.write_word(0x1000, 0xBEEF);
    assert_eq!(m.read_byte(0x1000), 0xEF);
    assert_eq!(m.read_byte(0x1001), 0xBE);
    assert_eq!(m.read_word(0x1000), 0xBEEF);
}

#[test]
fn memory_word_at_top_wraps_to_zero() {
    let mut m = Memory::new();
    m.write_word(0xFFFF, 0x1234);
    assert_eq!(m.read_byte(0xFFFF), 0x34);
    assert_eq!(m.read_byte(0x0000), 0x12);
    assert_eq!(m.read_word(0xFFFF), 0x1234);
}

#[test]
fn memory_read_after_write_keeps_other_bytes() {
    let mut m = Memory::new();
    m.write_byte(10, 7);
    m.write_byte(11, 9);
    m.write_byte(10, 8);
    assert_eq!(m.read_byte(10), 8);
    assert_eq!(m.read_byte(11), 9);
}

#[test]
fn memory_load_and_hex_dump() {
    let mut m = Memory::new();
    m.load(0x0200, &[1, 2, 0xAB, 4]);
    let expected = format!("  0200: 01 02 AB 04 {}\n", "   ".repeat(12));
    assert_eq!(m.hex_dump(0x0200, 4), expected);
    let two_rows = m.hex_dump(0x0200, 17);
    assert!(two_rows.starts_with("  0200: 01 02 AB 04 00 "));
    assert!(two_rows.contains("\n  0210: 00 "));
    assert_eq!(two_rows.lines().count(), 2);
    assert_eq!(m.hex_dump(0, 0), "");
}

// ── Flags ────────────────────────────────────────────────────────────────────

#[test]
fn flags_text_and_bits() {
    let mut f = Flags::default();
    assert_eq!(f.to_text(), "[Z:0 C:0 N:0 V:0 IE:0]");
    f.set_carry(true);
    f.set_int_enable(true);
    assert_eq!(f.0, 0x82);
    assert_eq!(f.to_text(), "[Z:0 C:1 N:0 V:0 IE:1]");
    f.set_carry(false);
    assert!(!f.carry());
    assert!(f.int_enable());
}

#[test]
fn flags_arithmetic_update() {
    let mut f = Flags(0x80);
    // 0x7FFF + 1 overflows into the sign bit.
    f.update_arithmetic(0x8000, 0x7FFF, 1, false);
    assert!(f.overflow() && f.negative() && !f.zero() && !f.carry());
    assert!(f.int_enable(), "IE is kept");
    // 0xFFFF + 1 carries out and wraps to zero.
    f.update_arithmetic(0x10000, 0xFFFF, 1, false);
    assert!(f.carry() && f.zero() && !f.negative() && !f.overflow());
}

#[test]
fn flags_logical_update_clears_carry_keeps_overflow() {
    let mut f = Flags(0xFF);
    f.update_logical(0);
    assert!(f.zero() && !f.carry() && !f.negative());
    assert!(f.overflow() && f.int_enable());
    f.update_logical(0x8000);
    assert!(!f.zero() && f.negative());
}

// ── ISA ──────────────────────────────────────────────────────────────────────

#[test]
fn encode_decode_roundtrip() {
    let w = Instruction::encode_rr(Opcode::Add, 1, 2);
    assert_eq!(w, 0x1580);
    let i = Instruction::decode(w, 0).unwrap();
    assert_eq!(i.opcode, Opcode::Add);
    assert_eq!(i.dst, 1);
    assert_eq!(i.src, 2);
    let j = Instruction::decode(bare(Opcode::Jmp), 0x1234).unwrap();
    assert_eq!(j.opcode, Opcode::Jmp);
    assert_eq!(j.imm, 0x1234);
    let k = Instruction::decode(Instruction::encode_ri(Opcode::Addi, 3, 0x3D), 0).unwrap();
    assert_eq!(k.imm, 0x3D);
}

#[test]
fn unknown_opcode_is_refused() {
    assert_eq!(Opcode::from_code(0x30).unwrap_err(), "Unknown opcode: 0x30");
    assert_eq!(Opcode::from_code(0x11).unwrap(), Opcode::Jmp);
    assert_eq!(Opcode::Halt.code(), 0x3F);
    assert_eq!(Opcode::Mod.name(), "Mod");
    assert!(Instruction::decode(0x30 << 10, 0).is_err());
}

// ── Cache ────────────────────────────────────────────────────────────────────

#[test]
fn cache_dump_shows_lines() {
    let mut mem = Memory::new();
    mem.write_word(0x0300, 0xABCD);
    let mut c = Cache::new();
    let empty = c.dump();
    assert!(empty.starts_with("Cache state:\n  Line  Valid  Tag     Data\n"));
    assert!(empty.contains("\n     0     no  ──────  ──────\n"));
    assert!(empty.ends_with("    15     no  ──────  ──────\n"));
    assert_eq!(c.read_word(0x0300, &mem), 0xABCD);
    let after = c.dump();
    assert!(after.contains("\n     0    yes  0x0018  0xABCD\n"));
    let line = c.get_line(0);
    assert!(line.valid);
    assert_eq!(line.tag, 0x18);
    assert_eq!(line.data, 0xABCD);
}

#[test]
fn cache_write_through_updates_memory_and_cached_line() {
    let mut mem = Memory::new();
    let mut c = Cache::new();
    c.read_word(0x0400, &mem);
    c.write_word(0x0400, 77, &mut mem);
    assert_eq!(mem.read_word(0x0400), 77);
    assert_eq!(c.read_word(0x0400, &mem), 77);
    assert_eq!(c.stats.writes, 1);
    assert_eq!(c.stats.hits, 1);
    assert_eq!(c.stats.total_accesses(), 3);
}

#[test]
fn cache_invalidate_drops_one_line() {
    let mut mem = Memory::new();
    mem.write_word(0x0300, 5);
    let mut c = Cache::new();
    c.read_word(0x0300, &mem);
    c.invalidate(0x0300);
    assert!(!c.get_line(0).valid);
    c.read_word(0x0300, &mem);
    assert_eq!(c.stats.cold_misses, 2);
}

#[test]
fn cache_stats_stay_consistent() {
    let mut mem = Memory::new();
    let mut c = Cache::new();
    for a in [0x0300u16, 0x0320, 0x0300, 0x0302, 0x0302] {
        mem.write_word(a, a);
        assert_eq!(c.read_word(a, &mem), a);
    }
    let s: CacheStats = c.stats;
    assert_eq!(s.reads, s.hits + s.misses);
    assert_eq!(s.misses, s.cold_misses + s.conflict_misses);
    assert_eq!((s.hits, s.cold_misses, s.conflict_misses), (1, 2, 2));
}

// ── CPU ──────────────────────────────────────────────────────────────────────

#[test]
fn new_cpu_state_text() {
    let cpu = Cpu::new();
    assert_eq!(cpu.pc, PROG_BASE);
    assert_eq!(cpu.sp, STACK_BASE);
    assert_eq!(
        cpu.dump_state(),
        "PC=0200  SP=FFFE  FLAGS=[Z:0 C:0 N:0 V:0 IE:0]\n  R0=0000  R1=0000  R2=0000  R3=0000\n  Cycles: 0"
    );
}

#[test]
fn halt_is_sticky() {
    let mut cpu = Cpu::new();
    cpu.load_program(&to_bytes(&[bare(Opcode::Halt), bare(Opcode::Nop)]));
    assert_eq!(cpu.step().unwrap(), CpuState::Halted);
    let pc = cpu.pc;
    assert_eq!(cpu.step().unwrap(), CpuState::Halted);
    assert_eq!(cpu.pc, pc);
    assert_eq!(cpu.cycles, 1);
}

#[test]
fn division_by_zero_is_an_error() {
    let mut cpu = Cpu::new();
    cpu.load_program(&to_bytes(&[
        Instruction::encode_ri(Opcode::Load, 0, 5),
        Instruction::encode_rr(Opcode::Div, 0, 1),
        bare(Opcode::Halt),
    ]));
    assert_eq!(cpu.run(100).unwrap_err(), "Division by zero");
}

#[test]
fn unknown_opcode_stops_the_run() {
    let mut cpu = Cpu::new();
    cpu.load_program(&to_bytes(&[0x30 << 10]));
    assert_eq!(cpu.run(10).unwrap_err(), "Unknown opcode: 0x30");
}

#[test]
fn run_stops_at_cycle_budget() {
    let mut cpu = Cpu::new();
    // JMP 0x0200: an endless loop.
    cpu.load_program(&to_bytes(&[bare(Opcode::Jmp), 0x0200]));
    assert_eq!(cpu.run(25).unwrap(), CpuState::Running);
    assert_eq!(cpu.cycles, 25);
}

#[test]
fn call_pushes_return_address_and_ret_pops_it() {
    let mut cpu = Cpu::new();
    cpu.load_program(&to_bytes(&[bare(Opcode::Call), 0x0210]));
    cpu.load_at(0x0210, &to_bytes(&[bare(Opcode::Ret)]));
    cpu.step().unwrap();
    assert_eq!(cpu.pc, 0x0210);
    assert_eq!(cpu.sp, STACK_BASE - 2);
    assert_eq!(cpu.mem.read_word(STACK_BASE - 2), 0x0204);
    cpu.step().unwrap();
    assert_eq!(cpu.pc, 0x0204);
    assert_eq!(cpu.sp, STACK_BASE);
}

#[test]
fn hardware_interrupt_saves_frame_and_jumps() {
    let mut cpu = Cpu::new();
    cpu.flags.set_int_enable(true);
    cpu.mem.write_word(0x0002, 0x0400); // IVT[1]
    cpu.load_program(&to_bytes(&[bare(Opcode::Nop)]));
    cpu.raise_irq(1);
    assert_eq!(cpu.step().unwrap(), CpuState::Running);
    assert_eq!(cpu.pc, 0x0400);
    assert_eq!(cpu.cycles, 6);
    assert!(!cpu.flags.int_enable());
    assert_eq!(cpu.mem.read_word(STACK_BASE - 2), 0x0000); // saved flags, IE already cleared
    assert_eq!(cpu.mem.read_word(STACK_BASE - 4), 0x0200); // saved PC
    assert_eq!(cpu.sp, STACK_BASE - 4);
    assert_eq!(cpu.pending_irq, None);
}

#[test]
fn pending_interrupt_waits_while_disabled() {
    let mut cpu = Cpu::new();
    cpu.flags.set_int_enable(false);
    cpu.load_program(&to_bytes(&[bare(Opcode::Nop), bare(Opcode::Halt)]));
    cpu.raise_irq(0);
    cpu.step().unwrap();
    assert_eq!(cpu.pc, 0x0202);
    assert_eq!(cpu.pending_irq, Some(0));
}

#[test]
fn shifts_set_carry_from_last_bit_out() {
    let mut cpu = Cpu::new();
    cpu.load_program(&to_bytes(&[
        Instruction::encode_ri(Opcode::Load, 0, 0x3E),
        0x8001,
        Instruction::encode_ri(Opcode::Shl, 0, 1),
        bare(Opcode::Halt),
    ]));
    cpu.run(10).unwrap();
    assert_eq!(cpu.regs[0], 0x0002);
    assert!(cpu.flags.carry());
}

#[test]
fn rotate_by_zero_changes_nothing() {
    let mut cpu = Cpu::new();
    cpu.flags.set_carry(true);
    cpu.load_program(&to_bytes(&[
        Instruction::encode_ri(Opcode::Load, 0, 9),
        Instruction::encode_ri(Opcode::Rol, 0, 0),
        bare(Opcode::Halt),
    ]));
    cpu.run(10).unwrap();
    assert_eq!(cpu.regs[0], 9);
    assert!(cpu.flags.carry());
}

// ── Pipeline ─────────────────────────────────────────────────────────────────

#[test]
fn pipeline_dump_of_empty_pipeline() {
    let cpu = PipelinedCpu::new();
    assert_eq!(
        cpu.dump_pipeline(),
        "IF/ID v=false pc=0000 | ID/EX v=false op=None | EX/MEM v=false op=None res=0000 | MEM/WB v=false op=None wb=0000"
    );
}

#[test]
fn pipeline_division_by_zero_is_an_error() {
    let mut cpu = PipelinedCpu::new();
    cpu.load_program(&to_bytes(&[
        Instruction::encode_ri(Opcode::Load, 0, 5),
        Instruction::encode_rr(Opcode::Div, 0, 1),
        bare(Opcode::Halt),
    ]));
    assert_eq!(cpu.run(100).unwrap_err(), "Pipeline: division by zero");
}

#[test]
fn pipeline_modulo_by_zero_is_an_error() {
    let mut cpu = PipelinedCpu::new();
    cpu.load_program(&to_bytes(&[
        Instruction::encode_ri(Opcode::Load, 0, 5),
        Instruction::encode_rr(Opcode::Mod, 0, 1),
        bare(Opcode::Halt),
    ]));
    assert_eq!(cpu.run(100).unwrap_err(), "Pipeline: modulo by zero");
}

#[test]
fn pipeline_halted_tick_changes_nothing() {
    let mut cpu = PipelinedCpu::new();
    cpu.load_program(&to_bytes(&[bare(Opcode::Halt)]));
    cpu.run(100).unwrap();
    assert!(cpu.halted);
    let cycles = cpu.stats.cycles;
    cpu.tick().unwrap();
    assert_eq!(cpu.stats.cycles, cycles);
}

#[test]
fn pipeline_counts_ideal_cycles() {
    let mut cpu = PipelinedCpu::new();
    cpu.load_program(&to_bytes(&[
        Instruction::encode_ri(Opcode::Load, 0, 1),
        Instruction::encode_ri(Opcode::Load, 1, 2),
        bare(Opcode::Halt),
    ]));
    cpu.run(100).unwrap();
    assert_eq!(cpu.stats.instructions_committed, 3);
    assert_eq!(cpu.stats.ideal_cycles(), 7);
    assert!(cpu.stats.cycles >= cpu.stats.instructions_committed);
}

#[test]
fn pipeline_and_core_agree_on_straight_line_code() {
    let prog = to_bytes(&[
        Instruction::encode_ri(Opcode::Load, 0, 7),
        Instruction::encode_ri(Opcode::Load, 1, 6),
        Instruction::encode_rr(Opcode::Mul, 0, 1),
        Instruction::encode_ri(Opcode::Addi, 0, 0x3F),
        bare(Opcode::Halt),
    ]);
    let mut a = Cpu::new();
    a.load_program(&prog);
    a.run(100).unwrap();
    let mut b = PipelinedCpu::new();
    b.load_program(&prog);
    b.run(100).unwrap();
    assert_eq!(a.regs, b.regs);
    assert_eq!(a.regs[0], 41);
}

#[test]
fn conditional_jump_not_taken_skips_address_word() {
    let mut cpu = Cpu::new();
    cpu.load_program(&to_bytes(&[bare(Opcode::Jz), 0x0300, bare(Opcode::Halt)]));
    cpu.step().unwrap();
    assert_eq!(cpu.pc, 0x0204);
    cpu.flags.set_zero(true);
    cpu.pc = 0x0200;
    cpu.step().unwrap();
    assert_eq!(cpu.pc, 0x0300);
}

#[test]
fn wide_load_skips_its_value_word() {
    let mut cpu = Cpu::new();
    cpu.load_program(&to_bytes(&[Instruction::encode_ri(Opcode::Load, 2, 0x3E), 0x4321]));
    cpu.step().unwrap();
    assert_eq!(cpu.pc, 0x0204);
    assert_eq!(cpu.regs[2], 0x4321);
}

#[test]
fn ei_and_di_switch_interrupts() {
    let mut cpu = Cpu::new();
    cpu.load_program(&to_bytes(&[bare(Opcode::Di), bare(Opcode::Ei), bare(Opcode::Halt)]));
    cpu.step().unwrap();
    assert!(!cpu.flags.int_enable());
    cpu.step().unwrap();
    assert!(cpu.flags.int_enable());
}

#[test]
fn pipeline_unknown_opcode_is_an_error() {
    let mut cpu = PipelinedCpu::new();
    cpu.load_program(&to_bytes(&[0x30 << 10]));
    assert_eq!(cpu.run(20).unwrap_err(), "Unknown opcode: 0x30");
}

#[test]
fn new_core_starts_with_interrupts_disabled() {
    let cpu = Cpu::new();
    assert_eq!(cpu.flags.0, 0);
    let mut c2 = Cpu::new();
    c2.load_program(&to_bytes(&[bare(Opcode::Nop), bare(Opcode::Halt)]));
    c2.raise_irq(0);
    c2.step().unwrap();
    assert_eq!(c2.pc, 0x0202, "no dispatch before EI");
    assert_eq!(PipelinedCpu::new().flags.0, 0);
}

#[test]
fn addi_sets_overflow_on_signed_overflow() {
    let mut cpu = Cpu::new();
    cpu.load_program(&to_bytes(&[
        Instruction::encode_ri(Opcode::Load, 0, 0x3E),
        0x8000,
        Instruction::encode_ri(Opcode::Addi, 0, 0x3F), // -1
        bare(Opcode::Halt),
    ]));
    cpu.run(10).unwrap();
    assert_eq!(cpu.regs[0], 0x7FFF);
    assert!(cpu.flags.overflow());
    assert!(!cpu.flags.zero() && !cpu.flags.negative());
}

#[test]
fn shr_sets_carry_from_bit_shifted_out() {
    let mut cpu = Cpu::new();
    cpu.load_program(&to_bytes(&[
        Instruction::encode_ri(Opcode::Load, 0, 3),
        Instruction::encode_ri(Opcode::Shr, 0, 1),
        bare(Opcode::Halt),
    ]));
    cpu.run(10).unwrap();
    assert_eq!(cpu.regs[0], 1);
    assert!(cpu.flags.carry());
    let mut c2 = Cpu::new();
    c2.load_program(&to_bytes(&[
        Instruction::encode_ri(Opcode::Load, 0, 4),
        Instruction::encode_ri(Opcode::Shr, 0, 1),
        bare(Opcode::Halt),
    ]));
    c2.run(10).unwrap();
    assert_eq!(c2.regs[0], 2);
    assert!(!c2.flags.carry());
}

fn both(words: &[u16]) -> (Cpu, PipelinedCpu) {
    let prog = to_bytes(words);
    let mut a = Cpu::new();
    a.load_program(&prog);
    assert_eq!(a.run(1000).unwrap(), CpuState::Halted);
    let mut b = PipelinedCpu::new();
    b.load_program(&prog);
    b.run(1000).unwrap();
    assert!(b.halted);
    (a, b)
}

#[test]
fn pipeline_runs_wide_load() {
    let (a, b) = both(&[0x043E, 0x0400, 0xFC00]);
    assert_eq!(a.regs[0], 0x0400);
    assert_eq!(b.regs[0], 0x0400);
}

#[test]
fn pipeline_stalls_behind_swap_second_register() {
    let (a, b) = both(&[
        Instruction::encode_ri(Opcode::Load, 0, 5),
        Instruction::encode_ri(Opcode::Load, 1, 9),
        Instruction::encode_rr(Opcode::Swap, 0, 1),
        Instruction::encode_rr(Opcode::Mov, 2, 1),
        bare(Opcode::Halt),
    ]);
    assert_eq!(a.regs, [9, 5, 5, 0]);
    assert_eq!(b.regs, a.regs);
}

#[test]
fn pipeline_rotate_reads_committed_carry() {
    let (a, b) = both(&[
        Instruction::encode_ri(Opcode::Load, 0, 0x3E),
        0xFFFF,
        Instruction::encode_ri(Opcode::Addi, 0, 1), // carry out
        Instruction::encode_ri(Opcode::Rol, 1, 1),  // carry into R1
        bare(Opcode::Halt),
    ]);
    assert_eq!(a.regs[1], 1);
    assert_eq!(b.regs, a.regs);
}

#[test]
fn pipeline_ignores_words_after_halt() {
    let (a, b) = both(&[
        Instruction::encode_ri(Opcode::Load, 0, 7),
        bare(Opcode::Halt),
        Instruction::encode_ri(Opcode::Push, 0, 0),
        0x30 << 10,
    ]);
    assert_eq!(b.regs, a.regs);
    assert_eq!(b.sp, a.sp);
    assert_eq!(b.mem.read_word(STACK_BASE - 2), 0);
}

#[test]
fn pipeline_matches_core_on_calls_and_memory() {
    let (a, b) = both(&[
        Instruction::encode_ri(Opcode::Load, 0, 0x3E),
        0x0400,
        Instruction::encode_ri(Opcode::Load, 1, 42),
        Instruction::encode_rr(Opcode::Store, 0, 1),
        bare(Opcode::Call),
        0x0220,
        Instruction::encode_rr(Opcode::LoadM, 2, 0),
        bare(Opcode::Halt),
    ]
    .iter()
    .copied()
    .chain(std::iter::repeat(0).take(8))
    .chain([Instruction::encode_ri(Opcode::Addi, 3, 1), bare(Opcode::Ret)])
    .collect::<Vec<u16>>());
    assert_eq!(a.regs, [0x0400, 42, 42, 1]);
    assert_eq!(b.regs, a.regs);
    assert_eq!(b.sp, a.sp);
    assert_eq!(b.mem.read_word(0x0400), 42);
}

#[test]
fn pipeline_logic_result_keeps_overflow_of_earlier_add() {
    let (a, b) = both(&[
        Instruction::encode_ri(Opcode::Load, 0, 0x3E),
        0x7FFF,
        Instruction::encode_ri(Opcode::Load, 1, 1),
        Instruction::encode_rr(Opcode::Add, 0, 1), // sets V
        Instruction::encode_rr(Opcode::And, 2, 3), // keeps V
        bare(Opcode::Halt),
    ]);
    assert!(a.flags.overflow());
    assert_eq!(b.flags.0 & 0x0F, a.flags.0 & 0x0F);
    assert_eq!(b.regs, a.regs);
}

#[test]
fn pipeline_matches_core_on_readme_programs() {
    let programs = [
        "LOAD R0, 6\nCALL FACTORIAL\nHALT\nFACTORIAL:\nLOAD R1, 1\nLOAD R2, 0\nLOOP: CMP R0, R2\nJZ DONE\nMUL R1, R0\nADDI R0, -1\nJMP LOOP\nDONE: RET",
        "LOAD R0, 0\nLOAD R1, 1\nLOAD R2, 9\nLOOP:\nMOV R3, R1\nADD R1, R0\nMOV R0, R3\nADDI R2, -1\nLOAD R3, 0\nCMP R2, R3\nJNZ LOOP\nHALT",
        "LOAD R0, 0x0400\nLOAD R1, 0xBEEF\nSTORE R0, R1\nLOAD R2, 0\nLOADM R2, R0\nPUSH R2\nPOP R3\nSHR R3, 4\nROL R3, 1\nXOR R1, R3\nHALT",
    ];
    for src in programs {
        let out = Assembler::new(PROG_BASE).assemble(src).unwrap();
        let (a, b) = both(&out.words);
        assert_eq!(b.regs, a.regs, "{}", src);
        assert_eq!(b.sp, a.sp);
        assert_eq!(b.flags.0 & 0x0F, a.flags.0 & 0x0F);
    }
}

#[test]
fn pipeline_stack_writes_go_through_cache() {
    let out = Assembler::new(PROG_BASE)
        .assemble("LOAD R0, 0xFFFC\nLOADM R1, R0\nLOAD R2, 7\nPUSH R2\nLOADM R3, R0\nHALT")
        .unwrap();
    let (a, b) = both(&out.words);
    assert_eq!(a.regs[3], 7);
    assert_eq!(b.regs, a.regs);
    assert_eq!(b.mem.read_word(0xFFFC), 7);
    assert_eq!(b.cache.stats.writes, 1);
    assert_eq!(b.cache.stats.hits, 1);
}

#[test]
fn pipeline_counts_stack_reads_in_cache() {
    let out = Assembler::new(PROG_BASE)
        .assemble("LOAD R0, 5\nPUSH R0\nPOP R1\nCALL F\nHALT\nF: RET")
        .unwrap();
    let (a, b) = both(&out.words);
    assert_eq!(b.regs, a.regs);
    assert_eq!(b.cache.stats.reads, a.cache.stats.reads);
    assert_eq!(b.cache.stats.writes, a.cache.stats.writes);
    assert_eq!(b.cache.stats.reads, 2);
}

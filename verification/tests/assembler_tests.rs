use cpu16::assembler::Assembler;
use cpu16::cpu::{Cpu, PROG_BASE};
use cpu16::isa::{Instruction, Opcode};

fn bare(op: Opcode) -> u16 {
    (op.code() as u16) << 10
}

fn words_of(src: &str) -> Vec<u16> {
    Assembler::new(PROG_BASE)
        .assemble(src)
        .expect("assembly failed")
        .words
}

fn error_of(src: &str) -> String {
    match Assembler::new(PROG_BASE).assemble(src) {
        Ok(_) => panic!("assembly should fail"),
        Err(e) => e,
    }
}

fn symbol(src: &str, name: &str) -> Option<u16> {
    let out = Assembler::new(PROG_BASE).assemble(src).expect("assembly failed");
    let found: Vec<u16> = out
        .symbols
        .iter()
        .filter(|(n, _)| n == name)
        .map(|(_, a)| *a)
        .collect();
    assert!(found.len() <= 1, "a label appears once in the table");
    found.first().copied()
}

#[test]
fn forward_jump_resolves_to_label_address() {
    let w = words_of("JMP END\nNOP\nEND:\nHALT");
    assert_eq!(w, vec![bare(Opcode::Jmp), 0x0206, bare(Opcode::Nop), bare(Opcode::Halt)]);
}

#[test]
fn backward_call_resolves_to_label_address() {
    let w = words_of("TOP:\nNOP\nCALL TOP");
    assert_eq!(w, vec![bare(Opcode::Nop), bare(Opcode::Call), 0x0200]);
}

#[test]
fn label_address_counts_wide_loads() {
    // LOAD with an immediate above 0x3E takes two words.
    let src = "LOAD R0, 100\nAFTER:\nHALT";
    assert_eq!(symbol(src, "AFTER"), Some(0x0204));
    let w = words_of(src);
    assert_eq!(w.len(), 3);
    assert_eq!(w[0], Instruction::encode_ri(Opcode::Load, 0, 0x3E));
    assert_eq!(w[1], 100);
}

#[test]
fn label_address_counts_data_words() {
    let src = "DW 1, 2, 3\nNEXT:\nHALT";
    assert_eq!(symbol(src, "NEXT"), Some(0x0206));
    assert_eq!(words_of(src), vec![1, 2, 3, bare(Opcode::Halt)]);
}

#[test]
fn redefined_label_keeps_last_address() {
    let src = "A:\nNOP\nA:\nHALT\nDW A";
    assert_eq!(symbol(src, "A"), Some(0x0202));
    assert_eq!(words_of(src), vec![bare(Opcode::Nop), bare(Opcode::Halt), 0x0202]);
}

#[test]
fn symbol_table_lists_each_label() {
    let out = Assembler::new(0x1000)
        .assemble("START:\nNOP\nLOOP:\nJMP LOOP\nEND:")
        .unwrap();
    let mut syms = out.symbols.clone();
    syms.sort();
    assert_eq!(
        syms,
        vec![
            ("END".to_string(), 0x1006),
            ("LOOP".to_string(), 0x1002),
            ("START".to_string(), 0x1000)
        ]
    );
}

#[test]
fn small_load_is_one_word() {
    assert_eq!(words_of("LOAD R2, 61"), vec![Instruction::encode_ri(Opcode::Load, 2, 61)]);
    // 62 is the wide-form marker itself, so it goes in a data word.
    assert_eq!(
        words_of("LOAD R2, 62"),
        vec![Instruction::encode_ri(Opcode::Load, 2, 0x3E), 62]
    );
    assert_eq!(
        words_of("LOAD R2, 63"),
        vec![Instruction::encode_ri(Opcode::Load, 2, 0x3E), 63]
    );
}

#[test]
fn load_of_62_loads_62() {
    let out = Assembler::new(PROG_BASE).assemble("LOAD R0, 62\nHALT").unwrap();
    assert_eq!(out.words, vec![0x043E, 0x003E, 0xFC00]);
    let bytes: Vec<u8> = out.words.iter().flat_map(|w| w.to_le_bytes()).collect();
    let mut cpu = Cpu::new();
    cpu.load_program(&bytes);
    cpu.run(10).unwrap();
    assert_eq!(cpu.regs[0], 62);
}

#[test]
fn load_of_label_is_sized_wide_in_both_passes() {
    let src = "LOAD R0, L\nL:\nHALT";
    assert_eq!(symbol(src, "L"), Some(0x0204));
    assert_eq!(words_of(src), vec![0x043E, 0x0204, 0xFC00]);
    // Also when the label's address would fit six bits.
    let out = Assembler::new(0x0000).assemble("LOAD R1, Z\nZ:\nHALT").unwrap();
    assert_eq!(out.words, vec![Instruction::encode_ri(Opcode::Load, 1, 0x3E), 0x0004, 0xFC00]);
}

#[test]
fn hex_and_negative_immediates() {
    assert_eq!(words_of("DW 0x1234, -1, 0xff"), vec![0x1234, 0xFFFF, 0x00FF]);
    assert_eq!(words_of("LOAD R1, 0xBEEF"), vec![Instruction::encode_ri(Opcode::Load, 1, 0x3E), 0xBEEF]);
}

#[test]
fn operand_forms_encode() {
    assert_eq!(words_of("ADD R1, R2"), vec![0x1580]);
    assert_eq!(words_of("ADDI R3, -3"), vec![Instruction::encode_ri(Opcode::Addi, 3, 0x3D)]);
    assert_eq!(words_of("NOT R2"), vec![bare(Opcode::Not) | (2 << 8)]);
    assert_eq!(words_of("INT 3"), vec![Instruction::encode_ri(Opcode::Int, 0, 3)]);
    assert_eq!(words_of("PUSH R1\nPOP R3"), vec![bare(Opcode::Push) | (1 << 8), bare(Opcode::Pop) | (3 << 8)]);
    assert_eq!(words_of("ROL R0, 4\nSWAP R1, R2\nNEG R3\nMOD R0, R1"), vec![
        Instruction::encode_ri(Opcode::Rol, 0, 4),
        Instruction::encode_rr(Opcode::Swap, 1, 2),
        bare(Opcode::Neg) | (3 << 8),
        Instruction::encode_rr(Opcode::Mod, 0, 1),
    ]);
}

#[test]
fn comments_commas_and_case_are_ignored() {
    let a = words_of("load r0, 5 ; a comment\n\n   add r0 r1\nhalt");
    let b = words_of("LOAD R0, 5\nADD R0, R1\nHALT");
    assert_eq!(a, b);
}

#[test]
fn label_line_assembles_rest_of_line() {
    assert_eq!(words_of("X: NOP\nHALT"), vec![bare(Opcode::Nop), bare(Opcode::Halt)]);
    let out = Assembler::new(0x0200).assemble("DONE: RET").unwrap();
    assert_eq!(out.words, vec![0x5C00]);
    assert_eq!(out.symbols, vec![("DONE".to_string(), 0x0200)]);
    assert_eq!(symbol("NOP\nL: JMP L", "L"), Some(0x0202));
    assert_eq!(words_of("NOP\nL: JMP L"), vec![bare(Opcode::Nop), bare(Opcode::Jmp), 0x0202]);
}

#[test]
fn unicode_tokens_are_upper_cased() {
    // `ß` upper-cases to `SS`.
    assert_eq!(words_of("ß:\nJMP SS"), vec![bare(Opcode::Jmp), 0x0200]);
}

#[test]
fn unknown_mnemonic_error() {
    assert_eq!(error_of("; start\n\nFOO R0"), "Line 3: Unknown mnemonic 'FOO'");
}

#[test]
fn unknown_register_error() {
    assert_eq!(error_of("NOP\nADD R4, R0"), "Line 2: Unknown register 'R4'");
}

#[test]
fn bad_hex_literal_error() {
    assert_eq!(error_of("LOAD R0, 0xZZ"), "Line 1: Bad hex literal '0XZZ'");
}

#[test]
fn unresolved_operand_error() {
    assert_eq!(
        error_of("JMP NOWHERE"),
        "Line 1: Cannot resolve 'NOWHERE' as immediate or label"
    );
}

#[test]
fn first_error_wins() {
    assert_eq!(error_of("FOO\nBAR"), "Line 1: Unknown mnemonic 'FOO'");
}

#[test]
fn missing_operand_is_refused() {
    let assembler = Assembler::new(PROG_BASE);
    assert!(assembler.try_assemble("LOAD R0").is_none());
    assert!(assembler.try_assemble("JMP").is_none());
    assert!(assembler.try_assemble("ADD R0").is_none());
    // An unknown register before the missing operand is reported as such.
    match assembler.try_assemble("ADD R9") {
        Some(Err(e)) => assert_eq!(e, "Line 1: Unknown register 'R9'"),
        _ => panic!("expected an error"),
    }
    match assembler.try_assemble("HALT") {
        Some(Ok(out)) => assert_eq!(out.words, vec![bare(Opcode::Halt)]),
        _ => panic!("expected output"),
    }
}

#[test]
fn readme_factorial_program_runs() {
    let src = "
        LOAD  R0, 6
        CALL  FACTORIAL
        HALT               ; R1 = 720

FACTORIAL:
        LOAD  R1, 1        ; accumulator = 1
        LOAD  R2, 0

LOOP:   CMP   R0, R2
        JZ    DONE
        MUL   R1, R0       ; acc *= n
        ADDI  R0, -1       ; n--
        JMP   LOOP

DONE:   RET
    ";
    let out = Assembler::new(PROG_BASE).assemble(src).unwrap();
    let bytes: Vec<u8> = out.words.iter().flat_map(|w| w.to_le_bytes()).collect();
    let mut cpu = Cpu::new();
    cpu.load_program(&bytes);
    cpu.run(10_000).unwrap();
    assert_eq!(cpu.regs[1], 720);
}

#[test]
fn readme_fibonacci_program_runs() {
    let src = "
; Compute Fibonacci(10) — result in R0 = 55

        LOAD  R0, 0        ; a = 0
        LOAD  R1, 1        ; b = 1
        LOAD  R2, 9        ; counter

LOOP:
        MOV   R3, R1       ; tmp = b
        ADD   R1, R0       ; b = a + b
        MOV   R0, R3       ; a = tmp
        ADDI  R2, -1       ; counter--
        LOAD  R3, 0
        CMP   R2, R3
        JNZ   LOOP

        HALT               ; R0 = 55
    ";
    let out = Assembler::new(PROG_BASE).assemble(src).unwrap();
    let bytes: Vec<u8> = out.words.iter().flat_map(|w| w.to_le_bytes()).collect();
    let mut cpu = Cpu::new();
    cpu.load_program(&bytes);
    cpu.run(10_000).unwrap();
    // Nine iterations leave F(9) in R0 and F(10) = 55 in R1.
    assert_eq!(cpu.regs[0], 34);
    assert_eq!(cpu.regs[1], 55);
}

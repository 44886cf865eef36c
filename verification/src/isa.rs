//! The instruction set: opcodes, the instruction word format, encoding and
//! decoding.
//!
//! Instruction word (16 bits):
//! `[ 6-bit opcode | 2-bit dst | 2-bit src | 6-bit immediate ]`.
//! Jumps and calls carry a full 16-bit address in the following word.

use vstd::prelude::*;
use crate::text::{push_hex, hex};

verus! {

/// The operations of the instruction set.
#[derive(Debug, Clone, Copy, PartialEq, Eq, Structural)]
pub enum Opcode {
    /// NOP — no operation
    Nop,
    /// LOAD Rd, imm6 — load an immediate (0x3E: the next word) into Rd
    Load,
    /// LOADM Rd, Rs — load the word at the address in Rs
    LoadM,
    /// STORE Rd, Rs — store Rs at the address in Rd
    Store,
    /// MOV Rd, Rs — copy Rs into Rd
    Mov,
    /// ADD Rd, Rs — Rd = Rd + Rs
    Add,
    /// SUB Rd, Rs — Rd = Rd - Rs
    Sub,
    /// ADDI Rd, imm6 — Rd = Rd + sign-extended imm6
    Addi,
    /// MUL Rd, Rs — low 16 bits of Rd * Rs
    Mul,
    /// DIV Rd, Rs — Rd = Rd / Rs
    Div,
    /// AND Rd, Rs
    And,
    /// OR Rd, Rs
    Or,
    /// XOR Rd, Rs
    Xor,
    /// NOT Rd
    Not,
    /// SHL Rd, imm4 — shift left
    Shl,
    /// SHR Rd, imm4 — logical shift right
    Shr,
    /// CMP Ra, Rb — set flags from Ra - Rb, no write-back
    Cmp,
    /// JMP addr — unconditional jump (address in the next word)
    Jmp,
    /// JZ addr — jump if Zero
    Jz,
    /// JNZ addr — jump if not Zero
    Jnz,
    /// JC addr — jump if Carry
    Jc,
    /// JN addr — jump if Negative
    Jn,
    /// CALL addr — push the return address and jump
    Call,
    /// RET — pop the program counter
    Ret,
    /// PUSH Rs
    Push,
    /// POP Rd
    Pop,
    /// INT imm — software interrupt
    Int,
    /// IRET — return from interrupt
    Iret,
    /// EI — enable interrupts
    Ei,
    /// DI — disable interrupts
    Di,
    /// NEG Rd — two's complement negation
    Neg,
    /// MOD Rd, Rs — Rd = Rd % Rs
    Mod,
    /// SWAP Rd, Rs — exchange two registers
    Swap,
    /// ROL Rd, imm4 — rotate left through carry
    Rol,
    /// ROR Rd, imm4 — rotate right through carry
    Ror,
    /// HALT
    Halt,
}

/// The 6-bit code of an opcode.
pub open spec fn code_of(op: Opcode) -> u8 {
    match op {
        Opcode::Nop => 0x00,
        Opcode::Load => 0x01,
        Opcode::LoadM => 0x02,
        Opcode::Store => 0x03,
        Opcode::Mov => 0x04,
        Opcode::Add => 0x05,
        Opcode::Sub => 0x06,
        Opcode::Addi => 0x07,
        Opcode::Mul => 0x08,
        Opcode::Div => 0x09,
        Opcode::And => 0x0A,
        Opcode::Or => 0x0B,
        Opcode::Xor => 0x0C,
        Opcode::Not => 0x0D,
        Opcode::Shl => 0x0E,
        Opcode::Shr => 0x0F,
        Opcode::Cmp => 0x10,
        Opcode::Jmp => 0x11,
        Opcode::Jz => 0x12,
        Opcode::Jnz => 0x13,
        Opcode::Jc => 0x14,
        Opcode::Jn => 0x15,
        Opcode::Call => 0x16,
        Opcode::Ret => 0x17,
        Opcode::Push => 0x18,
        Opcode::Pop => 0x19,
        Opcode::Int => 0x1A,
        Opcode::Iret => 0x1B,
        Opcode::Ei => 0x1C,
        Opcode::Di => 0x1D,
        Opcode::Neg => 0x1E,
        Opcode::Mod => 0x1F,
        Opcode::Swap => 0x20,
        Opcode::Rol => 0x21,
        Opcode::Ror => 0x22,
        Opcode::Halt => 0x3F,
    }
}

/// The opcode with 6-bit code `c`, if there is one.
pub open spec fn opcode_of(c: u8) -> Option<Opcode> {
    match c {
        0x00 => Some(Opcode::Nop),
        0x01 => Some(Opcode::Load),
        0x02 => Some(Opcode::LoadM),
        0x03 => Some(Opcode::Store),
        0x04 => Some(Opcode::Mov),
        0x05 => Some(Opcode::Add),
        0x06 => Some(Opcode::Sub),
        0x07 => Some(Opcode::Addi),
        0x08 => Some(Opcode::Mul),
        0x09 => Some(Opcode::Div),
        0x0A => Some(Opcode::And),
        0x0B => Some(Opcode::Or),
        0x0C => Some(Opcode::Xor),
        0x0D => Some(Opcode::Not),
        0x0E => Some(Opcode::Shl),
        0x0F => Some(Opcode::Shr),
        0x10 => Some(Opcode::Cmp),
        0x11 => Some(Opcode::Jmp),
        0x12 => Some(Opcode::Jz),
        0x13 => Some(Opcode::Jnz),
        0x14 => Some(Opcode::Jc),
        0x15 => Some(Opcode::Jn),
        0x16 => Some(Opcode::Call),
        0x17 => Some(Opcode::Ret),
        0x18 => Some(Opcode::Push),
        0x19 => Some(Opcode::Pop),
        0x1A => Some(Opcode::Int),
        0x1B => Some(Opcode::Iret),
        0x1C => Some(Opcode::Ei),
        0x1D => Some(Opcode::Di),
        0x1E => Some(Opcode::Neg),
        0x1F => Some(Opcode::Mod),
        0x20 => Some(Opcode::Swap),
        0x21 => Some(Opcode::Rol),
        0x22 => Some(Opcode::Ror),
        0x3F => Some(Opcode::Halt),
        _ => None,
    }
}

/// The variant name of an opcode (as `{:?}` prints it).
pub open spec fn opcode_name(op: Opcode) -> Seq<char> {
    match op {
        Opcode::Nop => "Nop"@,
        Opcode::Load => "Load"@,
        Opcode::LoadM => "LoadM"@,
        Opcode::Store => "Store"@,
        Opcode::Mov => "Mov"@,
        Opcode::Add => "Add"@,
        Opcode::Sub => "Sub"@,
        Opcode::Addi => "Addi"@,
        Opcode::Mul => "Mul"@,
        Opcode::Div => "Div"@,
        Opcode::And => "And"@,
        Opcode::Or => "Or"@,
        Opcode::Xor => "Xor"@,
        Opcode::Not => "Not"@,
        Opcode::Shl => "Shl"@,
        Opcode::Shr => "Shr"@,
        Opcode::Cmp => "Cmp"@,
        Opcode::Jmp => "Jmp"@,
        Opcode::Jz => "Jz"@,
        Opcode::Jnz => "Jnz"@,
        Opcode::Jc => "Jc"@,
        Opcode::Jn => "Jn"@,
        Opcode::Call => "Call"@,
        Opcode::Ret => "Ret"@,
        Opcode::Push => "Push"@,
        Opcode::Pop => "Pop"@,
        Opcode::Int => "Int"@,
        Opcode::Iret => "Iret"@,
        Opcode::Ei => "Ei"@,
        Opcode::Di => "Di"@,
        Opcode::Neg => "Neg"@,
        Opcode::Mod => "Mod"@,
        Opcode::Swap => "Swap"@,
        Opcode::Rol => "Rol"@,
        Opcode::Ror => "Ror"@,
        Opcode::Halt => "Halt"@,
    }
}

/// The message for an unknown opcode code.
pub open spec fn unknown_opcode_text(c: u8) -> Seq<char> {
    "Unknown opcode: 0x"@ + hex(c as nat, 2)
}

/// Jumps and calls take their target from the word after the instruction.
pub open spec fn uses_address_word(op: Opcode) -> bool {
    op == Opcode::Jmp || op == Opcode::Jz || op == Opcode::Jnz || op == Opcode::Jc || op == Opcode::Jn
        || op == Opcode::Call
}

/// Decoding the code of an opcode gives the opcode back; every code that
/// decodes is the code of what it decodes to.
pub proof fn law_opcode_code_roundtrip(op: Opcode, c: u8)
    ensures
        opcode_of(code_of(op)) == Some(op),
        code_of(op) < 64,
        opcode_of(c) matches Some(o) ==> code_of(o) == c,
{
}

impl Opcode {
    /// The 6-bit code of this opcode.
    pub fn code(&self) -> (c: u8)
        ensures
            c == code_of(*self),
            c < 64,
    {
        match self {
            Opcode::Nop => 0x00,
            Opcode::Load => 0x01,
            Opcode::LoadM => 0x02,
            Opcode::Store => 0x03,
            Opcode::Mov => 0x04,
            Opcode::Add => 0x05,
            Opcode::Sub => 0x06,
            Opcode::Addi => 0x07,
            Opcode::Mul => 0x08,
            Opcode::Div => 0x09,
            Opcode::And => 0x0A,
            Opcode::Or => 0x0B,
            Opcode::Xor => 0x0C,
            Opcode::Not => 0x0D,
            Opcode::Shl => 0x0E,
            Opcode::Shr => 0x0F,
            Opcode::Cmp => 0x10,
            Opcode::Jmp => 0x11,
            Opcode::Jz => 0x12,
            Opcode::Jnz => 0x13,
            Opcode::Jc => 0x14,
            Opcode::Jn => 0x15,
            Opcode::Call => 0x16,
            Opcode::Ret => 0x17,
            Opcode::Push => 0x18,
            Opcode::Pop => 0x19,
            Opcode::Int => 0x1A,
            Opcode::Iret => 0x1B,
            Opcode::Ei => 0x1C,
            Opcode::Di => 0x1D,
            Opcode::Neg => 0x1E,
            Opcode::Mod => 0x1F,
            Opcode::Swap => 0x20,
            Opcode::Rol => 0x21,
            Opcode::Ror => 0x22,
            Opcode::Halt => 0x3F,
        }
    }

    /// The opcode with code `v`, or the message `Unknown opcode: 0xHH`.
    pub fn from_code(v: u8) -> (r: Result<Opcode, String>)
        ensures
            opcode_of(v) matches Some(op) ==> r == Ok::<Opcode, String>(op),
            opcode_of(v) is None ==> (r matches Err(e) && e@ == unknown_opcode_text(v)),
    {
        match v {
            0x00 => Ok(Opcode::Nop),
            0x01 => Ok(Opcode::Load),
            0x02 => Ok(Opcode::LoadM),
            0x03 => Ok(Opcode::Store),
            0x04 => Ok(Opcode::Mov),
            0x05 => Ok(Opcode::Add),
            0x06 => Ok(Opcode::Sub),
            0x07 => Ok(Opcode::Addi),
            0x08 => Ok(Opcode::Mul),
            0x09 => Ok(Opcode::Div),
            0x0A => Ok(Opcode::And),
            0x0B => Ok(Opcode::Or),
            0x0C => Ok(Opcode::Xor),
            0x0D => Ok(Opcode::Not),
            0x0E => Ok(Opcode::Shl),
            0x0F => Ok(Opcode::Shr),
            0x10 => Ok(Opcode::Cmp),
            0x11 => Ok(Opcode::Jmp),
            0x12 => Ok(Opcode::Jz),
            0x13 => Ok(Opcode::Jnz),
            0x14 => Ok(Opcode::Jc),
            0x15 => Ok(Opcode::Jn),
            0x16 => Ok(Opcode::Call),
            0x17 => Ok(Opcode::Ret),
            0x18 => Ok(Opcode::Push),
            0x19 => Ok(Opcode::Pop),
            0x1A => Ok(Opcode::Int),
            0x1B => Ok(Opcode::Iret),
            0x1C => Ok(Opcode::Ei),
            0x1D => Ok(Opcode::Di),
            0x1E => Ok(Opcode::Neg),
            0x1F => Ok(Opcode::Mod),
            0x20 => Ok(Opcode::Swap),
            0x21 => Ok(Opcode::Rol),
            0x22 => Ok(Opcode::Ror),
            0x3F => Ok(Opcode::Halt),
            other => {
                let mut s = String::new();
                s.append("Unknown opcode: 0x");
                push_hex(&mut s, other as u32, 2);
                Err(s)
            }
        }
    }

    /// The variant name of this opcode.
    pub fn name(&self) -> (s: &'static str)
        ensures
            s@ == opcode_name(*self),
    {
        match self {
            Opcode::Nop => "Nop",
            Opcode::Load => "Load",
            Opcode::LoadM => "LoadM",
            Opcode::Store => "Store",
            Opcode::Mov => "Mov",
            Opcode::Add => "Add",
            Opcode::Sub => "Sub",
            Opcode::Addi => "Addi",
            Opcode::Mul => "Mul",
            Opcode::Div => "Div",
            Opcode::And => "And",
            Opcode::Or => "Or",
            Opcode::Xor => "Xor",
            Opcode::Not => "Not",
            Opcode::Shl => "Shl",
            Opcode::Shr => "Shr",
            Opcode::Cmp => "Cmp",
            Opcode::Jmp => "Jmp",
            Opcode::Jz => "Jz",
            Opcode::Jnz => "Jnz",
            Opcode::Jc => "Jc",
            Opcode::Jn => "Jn",
            Opcode::Call => "Call",
            Opcode::Ret => "Ret",
            Opcode::Push => "Push",
            Opcode::Pop => "Pop",
            Opcode::Int => "Int",
            Opcode::Iret => "Iret",
            Opcode::Ei => "Ei",
            Opcode::Di => "Di",
            Opcode::Neg => "Neg",
            Opcode::Mod => "Mod",
            Opcode::Swap => "Swap",
            Opcode::Rol => "Rol",
            Opcode::Ror => "Ror",
            Opcode::Halt => "Halt",
        }
    }
}

/// A decoded instruction.
#[derive(Debug, Clone, Copy)]
pub struct Instruction {
    pub opcode: Opcode,
    /// 2-bit register index.
    pub dst: u8,
    /// 2-bit register index.
    pub src: u8,
    /// The 6-bit immediate, or the address word of a jump or call.
    pub imm: u16,
}

/// The opcode field of an instruction word.
pub open spec fn field_opcode(word: u16) -> u8 {
    (word / 1024) as u8
}

/// The destination register field of an instruction word.
pub open spec fn field_dst(word: u16) -> u8 {
    ((word / 256) % 4) as u8
}

/// The source register field of an instruction word.
pub open spec fn field_src(word: u16) -> u8 {
    ((word / 64) % 4) as u8
}

/// The 6-bit immediate field of an instruction word.
pub open spec fn field_imm6(word: u16) -> u16 {
    word % 64
}

/// The instruction that `word` (followed by `next`) decodes to, if its
/// opcode field names an opcode.
pub open spec fn decode_spec(word: u16, next: u16) -> Option<Instruction> {
    match opcode_of(field_opcode(word)) {
        Some(op) => Some(
            Instruction {
                opcode: op,
                dst: field_dst(word),
                src: field_src(word),
                imm: if uses_address_word(op) {
                    next
                } else {
                    field_imm6(word)
                },
            },
        ),
        None => None,
    }
}

/// The word `encode_rr` packs.
pub open spec fn rr_word(op: Opcode, dst: u8, src: u8) -> u16 {
    (code_of(op) * 1024 + (dst % 4) * 256 + (src % 4) * 64) as u16
}

/// The word `encode_ri` packs.
pub open spec fn ri_word(op: Opcode, dst: u8, imm6: u8) -> u16 {
    (code_of(op) * 1024 + (dst % 4) * 256 + imm6 % 64) as u16
}

/// Decoding a packed register+register word gives back the opcode and the
/// two register fields (an immediate of zero, or the next word for jumps).
pub proof fn law_decode_encode_rr(op: Opcode, dst: u8, src: u8, next: u16)
    ensures
        decode_spec(rr_word(op, dst, src), next) == Some(
            Instruction {
                opcode: op,
                dst: dst % 4,
                src: src % 4,
                imm: if uses_address_word(op) {
                    next
                } else {
                    0
                },
            },
        ),
{
    let w = rr_word(op, dst, src);
    law_opcode_code_roundtrip(op, 0);
    assert(field_opcode(w) == code_of(op));
    assert(field_dst(w) == dst % 4);
    assert(field_src(w) == src % 4);
    assert(field_imm6(w) == 0);
}

/// Decoding a packed register+immediate word gives back the opcode, the
/// destination and the low six bits of the immediate (source field zero).
pub proof fn law_decode_encode_ri(op: Opcode, dst: u8, imm6: u8, next: u16)
    ensures
        decode_spec(ri_word(op, dst, imm6), next) == Some(
            Instruction {
                opcode: op,
                dst: dst % 4,
                src: 0,
                imm: if uses_address_word(op) {
                    next
                } else {
                    (imm6 % 64) as u16
                },
            },
        ),
{
    let w = ri_word(op, dst, imm6);
    law_opcode_code_roundtrip(op, 0);
    assert(field_opcode(w) == code_of(op));
    assert(field_dst(w) == dst % 4);
    assert(field_src(w) == 0);
    assert(field_imm6(w) == imm6 % 64);
}

impl Instruction {
    /// Packs a register+register instruction into a word.
    pub fn encode_rr(op: Opcode, dst: u8, src: u8) -> (w: u16)
        ensures
            w == rr_word(op, dst, src),
    {
        let c = op.code() as u16;
        let d = dst as u16 & 0x3;
        let s = src as u16 & 0x3;
        let w = (c << 10) | (d << 8) | (s << 6);
        assert(d == dst % 4 && s == src % 4) by (bit_vector)
            requires
                d == dst as u16 & 0x3,
                s == src as u16 & 0x3,
        ;
        assert(w == c * 1024 + d * 256 + s * 64) by (bit_vector)
            requires
                c < 64,
                d < 4,
                s < 4,
                w == (c << 10) | (d << 8) | (s << 6),
        ;
        w
    }

    /// Packs a register+immediate instruction into a word (the immediate is
    /// cut to its low six bits).
    pub fn encode_ri(op: Opcode, dst: u8, imm6: u8) -> (w: u16)
        ensures
            w == ri_word(op, dst, imm6),
    {
        let c = op.code() as u16;
        let d = dst as u16 & 0x3;
        let i = imm6 as u16 & 0x3F;
        let w = (c << 10) | (d << 8) | i;
        assert(d == dst % 4 && i == imm6 % 64) by (bit_vector)
            requires
                d == dst as u16 & 0x3,
                i == imm6 as u16 & 0x3F,
        ;
        assert(w == c * 1024 + d * 256 + i) by (bit_vector)
            requires
                c < 64,
                d < 4,
                i < 64,
                w == (c << 10) | (d << 8) | i,
        ;
        w
    }

    /// Decodes an instruction word; jumps and calls take `next_word` as their
    /// address. Fails with `Unknown opcode: 0xHH` when the opcode field names
    /// no opcode.
    pub fn decode(word: u16, next_word: u16) -> (r: Result<Instruction, String>)
        ensures
            decode_spec(word, next_word) matches Some(i) ==> r == Ok::<Instruction, String>(i),
            decode_spec(word, next_word) is None ==> (r matches Err(e) && e@ == unknown_opcode_text(
                field_opcode(word),
            )),
    {
        let opcode_bits = (word >> 10) as u8;
        let dst = ((word >> 8) & 0x3) as u8;
        let src = ((word >> 6) & 0x3) as u8;
        let imm6 = word & 0x3F;
        assert(opcode_bits == field_opcode(word) && dst == field_dst(word) && src == field_src(word)
            && imm6 == field_imm6(word)) by (bit_vector)
            requires
                opcode_bits == (word >> 10) as u8,
                dst == ((word >> 8) & 0x3) as u8,
                src == ((word >> 6) & 0x3) as u8,
                imm6 == word & 0x3F,
        ;
        let opcode = Opcode::from_code(opcode_bits)?;
        let imm = match opcode {
            Opcode::Jmp | Opcode::Jz | Opcode::Jnz | Opcode::Jc | Opcode::Jn | Opcode::Call => next_word,
            _ => imm6,
        };
        Ok(Instruction { opcode, dst, src, imm })
    }
}

} // verus!

//! Two-pass assembler.
//!
//! Pass 1 walks the token lines and records each label (a first token
//! ending with `:`) at the address reached so far; the instruction on the
//! line (after the label, if any) advances the address by the size of what
//! it will emit. Pass 2 emits the instruction words, resolving labels
//! (forward references included) and numbers (decimal, signed decimal, or
//! `0x` hex).

use vstd::prelude::*;
use crate::isa::{Opcode, code_of, rr_word, Instruction, opcode_name, field_opcode};
use crate::lexer::{
    tokenize, tokenize_spec, lines_view, upper, trim_end, chars_of, upper_prefix, trimmed_len_of,
    text_of, ascii_upper,
};
use crate::numbers::{parse_u16, parse_i16, parse_u16_spec, parse_i16_spec};
use crate::text::{add16, dec, err_view, push_dec, lemma_add16_add16};

verus! {

/// How a mnemonic's operands are read.
#[derive(Debug, Clone, Copy, PartialEq, Eq, Structural)]
pub enum Form {
    /// No operands.
    Bare,
    /// `LOAD Rd, imm` (one word for a number below 0x3E, else two: the
    /// marker 0x3E and the value).
    Load,
    /// Two registers.
    RegReg,
    /// A register and an immediate.
    RegImm,
    /// One register.
    Reg,
    /// An address in the next word.
    Jump,
    /// `INT imm`.
    Int,
    /// `DW v, ...`: raw data words.
    Data,
}

/// The form and opcode of a mnemonic.
pub open spec fn mnemonic(m: Seq<char>) -> Option<(Form, Opcode)> {
    if m == "NOP"@ {
        Some((Form::Bare, Opcode::Nop))
    } else if m == "HALT"@ {
        Some((Form::Bare, Opcode::Halt))
    } else if m == "RET"@ {
        Some((Form::Bare, Opcode::Ret))
    } else if m == "IRET"@ {
        Some((Form::Bare, Opcode::Iret))
    } else if m == "EI"@ {
        Some((Form::Bare, Opcode::Ei))
    } else if m == "DI"@ {
        Some((Form::Bare, Opcode::Di))
    } else if m == "LOAD"@ {
        Some((Form::Load, Opcode::Load))
    } else if m == "LOADM"@ {
        Some((Form::RegReg, Opcode::LoadM))
    } else if m == "STORE"@ {
        Some((Form::RegReg, Opcode::Store))
    } else if m == "MOV"@ {
        Some((Form::RegReg, Opcode::Mov))
    } else if m == "ADD"@ {
        Some((Form::RegReg, Opcode::Add))
    } else if m == "SUB"@ {
        Some((Form::RegReg, Opcode::Sub))
    } else if m == "ADDI"@ {
        Some((Form::RegImm, Opcode::Addi))
    } else if m == "MUL"@ {
        Some((Form::RegReg, Opcode::Mul))
    } else if m == "DIV"@ {
        Some((Form::RegReg, Opcode::Div))
    } else if m == "AND"@ {
        Some((Form::RegReg, Opcode::And))
    } else if m == "OR"@ {
        Some((Form::RegReg, Opcode::Or))
    } else if m == "XOR"@ {
        Some((Form::RegReg, Opcode::Xor))
    } else if m == "NOT"@ {
        Some((Form::Reg, Opcode::Not))
    } else if m == "SHL"@ {
        Some((Form::RegImm, Opcode::Shl))
    } else if m == "SHR"@ {
        Some((Form::RegImm, Opcode::Shr))
    } else if m == "CMP"@ {
        Some((Form::RegReg, Opcode::Cmp))
    } else if m == "JMP"@ {
        Some((Form::Jump, Opcode::Jmp))
    } else if m == "JZ"@ {
        Some((Form::Jump, Opcode::Jz))
    } else if m == "JNZ"@ {
        Some((Form::Jump, Opcode::Jnz))
    } else if m == "JC"@ {
        Some((Form::Jump, Opcode::Jc))
    } else if m == "JN"@ {
        Some((Form::Jump, Opcode::Jn))
    } else if m == "CALL"@ {
        Some((Form::Jump, Opcode::Call))
    } else if m == "PUSH"@ {
        Some((Form::Reg, Opcode::Push))
    } else if m == "POP"@ {
        Some((Form::Reg, Opcode::Pop))
    } else if m == "INT"@ {
        Some((Form::Int, Opcode::Int))
    } else if m == "DW"@ {
        Some((Form::Data, Opcode::Nop))
    } else if m == "NEG"@ {
        Some((Form::Reg, Opcode::Neg))
    } else if m == "MOD"@ {
        Some((Form::RegReg, Opcode::Mod))
    } else if m == "SWAP"@ {
        Some((Form::RegReg, Opcode::Swap))
    } else if m == "ROL"@ {
        Some((Form::RegImm, Opcode::Rol))
    } else if m == "ROR"@ {
        Some((Form::RegImm, Opcode::Ror))
    } else {
        None
    }
}

/// The address of the last definition of label `k`.
pub open spec fn lookup(defs: Seq<(Seq<char>, u16)>, k: Seq<char>) -> Option<u16>
    decreases defs.len(),
{
    if defs.len() == 0 {
        None
    } else if defs.last().0 == k {
        Some(defs.last().1)
    } else {
        lookup(defs.drop_last(), k)
    }
}

/// Whether `t` begins with `0X`.
pub open spec fn hex_prefixed(t: Seq<char>) -> bool {
    t.len() >= 2 && t[0] == '0' && t[1] == 'X'
}

/// The number a token denotes, labels aside: hex after `0X` (case
/// ignored), else unsigned, else signed decimal (two's complement); `None`
/// when it is none of these (a label, say).
pub open spec fn number_of(t: Seq<char>) -> Option<u16> {
    let s = trim_end(t, ',');
    let u = upper(s);
    if hex_prefixed(u) {
        parse_u16_spec(u.skip(2), 16)
    } else {
        match parse_u16_spec(s, 10) {
            Some(v) => Some(v),
            None => match parse_i16_spec(s) {
                Some(v) => Some((v % 65536) as u16),
                None => None,
            },
        }
    }
}

/// Whether a `LOAD` operand fits the one-word form: a number below 0x3E
/// (the immediate field 0x3E marks the wide form, whose value is in the
/// next word). A label, which pass 1 cannot resolve yet, always takes the
/// wide form, so that both passes give the line the same size.
pub open spec fn narrow_load(t: Seq<char>) -> bool {
    number_of(t) matches Some(n) && n < 0x3E
}

/// How many words a line emits, or `None` where the size computation
/// overflows (a `DW` line whose token count is a multiple of 65536).
pub open spec fn size_spec(t: Seq<Seq<char>>) -> Option<u16> {
    let m = t[0];
    if m == "JMP"@ || m == "JZ"@ || m == "JNZ"@ || m == "JC"@ || m == "JN"@ || m == "CALL"@ {
        Some(2)
    } else if m == "DW"@ {
        let n = t.len() % 65536;
        if n == 0 {
            None
        } else {
            Some((n - 1) as u16)
        }
    } else if m == "LOAD"@ && t.len() >= 3 && !narrow_load(t[2]) {
        Some(2)
    } else {
        Some(1)
    }
}

/// Whether a token line defines a label.
pub open spec fn is_label_line(t: Seq<Seq<char>>) -> bool {
    t.len() > 0 && t[0].len() > 0 && t[0].last() == ':'
}

/// The instruction part of a token line: what follows its label, if any.
pub open spec fn instr_part(t: Seq<Seq<char>>) -> Seq<Seq<char>> {
    if is_label_line(t) {
        t.skip(1)
    } else {
        t
    }
}

/// Pass 1: the label definitions in order and the address after the last
/// line, or `None` where the address computation overflows.
pub open spec fn pass1(lines: Seq<(usize, Seq<Seq<char>>)>, origin: u16) -> Option<(Seq<(Seq<char>, u16)>, u16)>
    decreases lines.len(),
{
    if lines.len() == 0 {
        Some((Seq::empty(), origin))
    } else {
        match pass1(lines.drop_last(), origin) {
            None => None,
            Some((defs, addr)) => {
                let t = lines.last().1;
                let defs1 = if is_label_line(t) {
                    defs.push((trim_end(t[0], ':'), addr))
                } else {
                    defs
                };
                let u = instr_part(t);
                if u.len() == 0 {
                    Some((defs1, addr))
                } else {
                    match size_spec(u) {
                        None => None,
                        Some(sz) => if sz > 32767 {
                            None
                        } else {
                            Some((defs1, add16(addr, 2 * sz)))
                        },
                    }
                }
            },
        }
    }
}

/// `Line n: ` for error messages.
pub open spec fn line_prefix(n: usize) -> Seq<char> {
    "Line "@ + dec(n as nat) + ": "@
}

/// Resolving an operand: a label, else `0X` hex, else unsigned or signed
/// decimal (two's complement).
pub open spec fn resolve_spec(t: Seq<char>, defs: Seq<(Seq<char>, u16)>, n: usize) -> Result<u16, Seq<char>> {
    match lookup(defs, t) {
        Some(v) => Ok(v),
        None => if hex_prefixed(t) {
            match parse_u16_spec(t.skip(2), 16) {
                Some(v) => Ok(v),
                None => Err(line_prefix(n) + "Bad hex literal '"@ + t + "'"@),
            }
        } else {
            match parse_u16_spec(t, 10) {
                Some(v) => Ok(v),
                None => match parse_i16_spec(t) {
                    Some(v) => Ok((v % 65536) as u16),
                    None => Err(line_prefix(n) + "Cannot resolve '"@ + t + "' as immediate or label"@),
                },
            }
        },
    }
}

/// Reading a register name `R0`-`R3`.
pub open spec fn reg_spec(t: Seq<char>, n: usize) -> Result<u8, Seq<char>> {
    if t == "R0"@ {
        Ok(0)
    } else if t == "R1"@ {
        Ok(1)
    } else if t == "R2"@ {
        Ok(2)
    } else if t == "R3"@ {
        Ok(3)
    } else {
        Err(line_prefix(n) + "Unknown register '"@ + t + "'"@)
    }
}

/// An instruction word with only the opcode field set.
pub open spec fn bare_word(op: Opcode) -> u16 {
    (code_of(op) * 1024) as u16
}

/// An instruction word with the opcode and destination fields set.
pub open spec fn r_word(op: Opcode, r: u8) -> u16 {
    (code_of(op) * 1024 + (r % 4) * 256) as u16
}

/// An instruction word with opcode, destination and 6-bit immediate.
pub open spec fn ri_word16(op: Opcode, r: u8, imm: u16) -> u16 {
    (code_of(op) * 1024 + (r % 4) * 256 + imm % 64) as u16
}

/// What emitting a line gives: words, an error message, or `Malformed` where
/// an operand the form needs is missing from the line.
pub enum Emitted {
    Words(Seq<u16>),
    Error(Seq<char>),
    Malformed,
}

/// The data words of `DW`: tokens 1 to `k - 1` resolved in order.
pub open spec fn data_spec(t: Seq<Seq<char>>, defs: Seq<(Seq<char>, u16)>, n: usize, k: nat) -> Result<Seq<u16>, Seq<char>>
    decreases k,
{
    if k <= 1 {
        Ok(Seq::empty())
    } else {
        match data_spec(t, defs, n, (k - 1) as nat) {
            Err(e) => Err(e),
            Ok(ws) => match resolve_spec(t[k - 1], defs, n) {
                Err(e) => Err(e),
                Ok(v) => Ok(ws.push(v)),
            },
        }
    }
}

/// Emitting the token line `t` (line `n`).
pub open spec fn emit_spec(t: Seq<Seq<char>>, defs: Seq<(Seq<char>, u16)>, n: usize) -> Emitted {
    match mnemonic(t[0]) {
        None => Emitted::Error(line_prefix(n) + "Unknown mnemonic '"@ + t[0] + "'"@),
        Some((form, op)) => match form {
            Form::Bare => Emitted::Words(seq![bare_word(op)]),
            Form::Load => if t.len() < 3 {
                Emitted::Malformed
            } else if narrow_load(t[2]) {
                match reg_spec(t[1], n) {
                    Err(e) => Emitted::Error(e),
                    Ok(r) => Emitted::Words(seq![ri_word16(op, r, number_of(t[2])->Some_0)]),
                }
            } else {
                match resolve_spec(t[2], defs, n) {
                    Err(e) => Emitted::Error(e),
                    Ok(imm) => match reg_spec(t[1], n) {
                        Err(e) => Emitted::Error(e),
                        Ok(r) => Emitted::Words(seq![ri_word16(op, r, 0x3E), imm]),
                    },
                }
            },
            Form::RegReg => if t.len() < 2 {
                Emitted::Malformed
            } else {
                match reg_spec(t[1], n) {
                    Err(e) => Emitted::Error(e),
                    Ok(d) => if t.len() < 3 {
                        Emitted::Malformed
                    } else {
                        match reg_spec(t[2], n) {
                            Err(e) => Emitted::Error(e),
                            Ok(s) => Emitted::Words(seq![rr_word(op, d, s)]),
                        }
                    },
                }
            },
            Form::RegImm => if t.len() < 2 {
                Emitted::Malformed
            } else {
                match reg_spec(t[1], n) {
                    Err(e) => Emitted::Error(e),
                    Ok(d) => if t.len() < 3 {
                        Emitted::Malformed
                    } else {
                        match resolve_spec(t[2], defs, n) {
                            Err(e) => Emitted::Error(e),
                            Ok(v) => Emitted::Words(seq![ri_word16(op, d, v)]),
                        }
                    },
                }
            },
            Form::Reg => if t.len() < 2 {
                Emitted::Malformed
            } else {
                match reg_spec(t[1], n) {
                    Err(e) => Emitted::Error(e),
                    Ok(d) => Emitted::Words(seq![r_word(op, d)]),
                }
            },
            Form::Jump => if t.len() < 2 {
                Emitted::Malformed
            } else {
                match resolve_spec(t[1], defs, n) {
                    Err(e) => Emitted::Error(e),
                    Ok(a) => Emitted::Words(seq![bare_word(op), a]),
                }
            },
            Form::Int => if t.len() < 2 {
                Emitted::Malformed
            } else {
                match resolve_spec(t[1], defs, n) {
                    Err(e) => Emitted::Error(e),
                    Ok(v) => Emitted::Words(seq![ri_word16(op, 0, v)]),
                }
            },
            Form::Data => match data_spec(t, defs, n, t.len()) {
                Err(e) => Emitted::Error(e),
                Ok(ws) => Emitted::Words(ws),
            },
        },
    }
}

/// Pass 2: the words of all lines in order, or the first error, or `Malformed`.
pub open spec fn pass2(lines: Seq<(usize, Seq<Seq<char>>)>, defs: Seq<(Seq<char>, u16)>) -> Emitted
    decreases lines.len(),
{
    if lines.len() == 0 {
        Emitted::Words(Seq::empty())
    } else {
        match pass2(lines.drop_last(), defs) {
            Emitted::Words(ws) => {
                let (n, t) = lines.last();
                let u = instr_part(t);
                if u.len() == 0 {
                    Emitted::Words(ws)
                } else {
                    match emit_spec(u, defs, n) {
                        Emitted::Words(w) => Emitted::Words(ws + w),
                        other => other,
                    }
                }
            },
            other => other,
        }
    }
}

/// Assembling token lines from `origin`: what pass 2 gives with the labels
/// of pass 1, and those labels (`Malformed` where pass 1 overflows).
pub open spec fn assemble_spec(lines: Seq<(usize, Seq<Seq<char>>)>, origin: u16) -> (Emitted, Seq<(Seq<char>, u16)>) {
    match pass1(lines, origin) {
        None => (Emitted::Malformed, Seq::empty()),
        Some((defs, _)) => (pass2(lines, defs), defs),
    }
}

/// The symbol table of `defs`: each label once, with the address of its
/// last definition, and no name that is not a label.
pub open spec fn symbols_of(out: Seq<(Seq<char>, u16)>, defs: Seq<(Seq<char>, u16)>) -> bool {
    &&& forall|i: int, j: int| 0 <= i < j < out.len() ==> out[i].0 != out[j].0
    &&& forall|i: int| 0 <= i < out.len() ==> lookup(defs, #[trigger] out[i].0) == Some(out[i].1)
    &&& forall|k: Seq<char>| #[trigger] lookup(defs, k) is Some ==> exists|i: int| 0 <= i < out.len() && out[i].0 == k
}

/// A symbol list taken by the views of its names.
pub open spec fn symbols_view(v: Seq<(String, u16)>) -> Seq<(Seq<char>, u16)> {
    v.map_values(|p: (String, u16)| (p.0@, p.1))
}

/// Assembled output: the binary words and the symbol table.
pub struct AssemblyOutput {
    pub words: Vec<u16>,
    /// Each label with its address.
    pub symbols: Vec<(String, u16)>,
}

/// Two-pass assembler for cpu16 assembly language.
pub struct Assembler {
    /// Address where the binary is meant to be loaded.
    origin: u16,
}

fn is_word(t: &String, w: &str) -> (b: bool)
    ensures
        b == (t@ == w@),
{
    let s = String::from_str(w);
    *t == s
}

fn mnemonic_exec(m: &String) -> (r: Option<(Form, Opcode)>)
    ensures
        r == mnemonic(m@),
{
    if is_word(m, "NOP") {
        return Some((Form::Bare, Opcode::Nop));
    }
    if is_word(m, "HALT") {
        return Some((Form::Bare, Opcode::Halt));
    }
    if is_word(m, "RET") {
        return Some((Form::Bare, Opcode::Ret));
    }
    if is_word(m, "IRET") {
        return Some((Form::Bare, Opcode::Iret));
    }
    if is_word(m, "EI") {
        return Some((Form::Bare, Opcode::Ei));
    }
    if is_word(m, "DI") {
        return Some((Form::Bare, Opcode::Di));
    }
    if is_word(m, "LOAD") {
        return Some((Form::Load, Opcode::Load));
    }
    if is_word(m, "LOADM") {
        return Some((Form::RegReg, Opcode::LoadM));
    }
    if is_word(m, "STORE") {
        return Some((Form::RegReg, Opcode::Store));
    }
    if is_word(m, "MOV") {
        return Some((Form::RegReg, Opcode::Mov));
    }
    if is_word(m, "ADD") {
        return Some((Form::RegReg, Opcode::Add));
    }
    if is_word(m, "SUB") {
        return Some((Form::RegReg, Opcode::Sub));
    }
    if is_word(m, "ADDI") {
        return Some((Form::RegImm, Opcode::Addi));
    }
    if is_word(m, "MUL") {
        return Some((Form::RegReg, Opcode::Mul));
    }
    if is_word(m, "DIV") {
        return Some((Form::RegReg, Opcode::Div));
    }
    if is_word(m, "AND") {
        return Some((Form::RegReg, Opcode::And));
    }
    if is_word(m, "OR") {
        return Some((Form::RegReg, Opcode::Or));
    }
    if is_word(m, "XOR") {
        return Some((Form::RegReg, Opcode::Xor));
    }
    if is_word(m, "NOT") {
        return Some((Form::Reg, Opcode::Not));
    }
    if is_word(m, "SHL") {
        return Some((Form::RegImm, Opcode::Shl));
    }
    if is_word(m, "SHR") {
        return Some((Form::RegImm, Opcode::Shr));
    }
    if is_word(m, "CMP") {
        return Some((Form::RegReg, Opcode::Cmp));
    }
    if is_word(m, "JMP") {
        return Some((Form::Jump, Opcode::Jmp));
    }
    if is_word(m, "JZ") {
        return Some((Form::Jump, Opcode::Jz));
    }
    if is_word(m, "JNZ") {
        return Some((Form::Jump, Opcode::Jnz));
    }
    if is_word(m, "JC") {
        return Some((Form::Jump, Opcode::Jc));
    }
    if is_word(m, "JN") {
        return Some((Form::Jump, Opcode::Jn));
    }
    if is_word(m, "CALL") {
        return Some((Form::Jump, Opcode::Call));
    }
    if is_word(m, "PUSH") {
        return Some((Form::Reg, Opcode::Push));
    }
    if is_word(m, "POP") {
        return Some((Form::Reg, Opcode::Pop));
    }
    if is_word(m, "INT") {
        return Some((Form::Int, Opcode::Int));
    }
    if is_word(m, "DW") {
        return Some((Form::Data, Opcode::Nop));
    }
    if is_word(m, "NEG") {
        return Some((Form::Reg, Opcode::Neg));
    }
    if is_word(m, "MOD") {
        return Some((Form::RegReg, Opcode::Mod));
    }
    if is_word(m, "SWAP") {
        return Some((Form::RegReg, Opcode::Swap));
    }
    if is_word(m, "ROL") {
        return Some((Form::RegImm, Opcode::Rol));
    }
    if is_word(m, "ROR") {
        return Some((Form::RegImm, Opcode::Ror));
    }
    None
}

fn lookup_exec(defs: &Vec<(String, u16)>, k: &String) -> (r: Option<u16>)
    ensures
        r == lookup(symbols_view(defs@), k@),
{
    let mut i = defs.len();
    assert(symbols_view(defs@).take(i as int) =~= symbols_view(defs@));
    while i > 0
        invariant
            i <= defs@.len(),
            lookup(symbols_view(defs@).take(i as int), k@) == lookup(symbols_view(defs@), k@),
        decreases i,
    {
        let ghost sv = symbols_view(defs@).take(i as int);
        assert(sv.drop_last() =~= symbols_view(defs@).take(i - 1));
        if defs[i - 1].0 == *k {
            return Some(defs[i - 1].1);
        }
        i = i - 1;
    }
    assert(symbols_view(defs@).take(0) =~= Seq::<(Seq<char>, u16)>::empty());
    None
}

fn line_message(n: usize, mid: &str, t: &String, tail: &str) -> (s: String)
    ensures
        s@ == line_prefix(n) + mid@ + t@ + tail@,
{
    let mut s = String::new();
    s.append("Line ");
    push_dec(&mut s, n as u64);
    s.append(": ");
    s.append(mid);
    s.append(t.as_str());
    s.append(tail);
    s
}

fn parse_reg(s: &String, lineno: usize) -> (r: Result<u8, String>)
    ensures
        err_view(r) == reg_spec(s@, lineno),
{
    if is_word(s, "R0") {
        Ok(0)
    } else if is_word(s, "R1") {
        Ok(1)
    } else if is_word(s, "R2") {
        Ok(2)
    } else if is_word(s, "R3") {
        Ok(3)
    } else {
        Err(line_message(lineno, "Unknown register '", s, "'"))
    }
}

fn starts_hex(v: &Vec<char>) -> (b: bool)
    ensures
        b == hex_prefixed(v@),
{
    v.len() >= 2 && v[0] == '0' && v[1] == 'X'
}

fn skip_two(v: &Vec<char>) -> (r: Vec<char>)
    requires
        v@.len() >= 2,
    ensures
        r@ == v@.skip(2),
{
    let mut r: Vec<char> = Vec::new();
    let mut i: usize = 2;
    while i < v.len()
        invariant
            2 <= i <= v@.len(),
            r@ == v@.subrange(2, i as int),
        decreases v@.len() - i,
    {
        r.push(v[i]);
        i = i + 1;
        assert(r@ =~= v@.subrange(2, i as int));
    }
    assert(r@ =~= v@.skip(2));
    r
}

fn resolve_imm(s: &String, syms: &Vec<(String, u16)>, lineno: usize) -> (r: Result<u16, String>)
    ensures
        err_view(r) == resolve_spec(s@, symbols_view(syms@), lineno),
{
    if let Some(v) = lookup_exec(syms, s) {
        return Ok(v);
    }
    let cs = chars_of(s.as_str());
    if starts_hex(&cs) {
        let hex = skip_two(&cs);
        return match parse_u16(&hex, 16) {
            Some(v) => Ok(v),
            None => Err(line_message(lineno, "Bad hex literal '", s, "'")),
        };
    }
    if let Some(v) = parse_u16(&cs, 10) {
        return Ok(v);
    }
    if let Some(v) = parse_i16(&cs) {
        let w: u16 = if v < 0 {
            (v as i32 + 65536) as u16
        } else {
            v as u16
        };
        return Ok(w);
    }
    Err(line_message(lineno, "Cannot resolve '", s, "' as immediate or label"))
}

fn resolve_imm_simple(s: &String) -> (v: Option<u16>)
    ensures
        v == number_of(s@),
{
    let raw = chars_of(s.as_str());
    let k = trimmed_len_of(&raw, ',');
    let up = upper_prefix(&raw, k);
    let upc = chars_of(up.as_str());
    if starts_hex(&upc) {
        let hex = skip_two(&upc);
        return parse_u16(&hex, 16);
    }
    let mut t: Vec<char> = Vec::new();
    let mut i: usize = 0;
    while i < k
        invariant
            i <= k <= raw@.len(),
            t@ == raw@.take(i as int),
        decreases k - i,
    {
        t.push(raw[i]);
        i = i + 1;
        assert(t@ =~= raw@.take(i as int));
    }
    if let Some(v) = parse_u16(&t, 10) {
        return Some(v);
    }
    if let Some(v) = parse_i16(&t) {
        let w: u16 = if v < 0 {
            (v as i32 + 65536) as u16
        } else {
            v as u16
        };
        return Some(w);
    }
    None
}

fn encode_bare(op: Opcode) -> (w: u16)
    ensures
        w == bare_word(op),
{
    let c = op.code() as u16;
    c * 1024
}

fn encode_r(op: Opcode, r: u8) -> (w: u16)
    ensures
        w == r_word(op, r),
{
    let c = op.code() as u16;
    c * 1024 + (r as u16 % 4) * 256
}

fn encode_ri(op: Opcode, dst: u8, imm: u16) -> (w: u16)
    ensures
        w == ri_word16(op, dst, imm),
{
    let c = op.code() as u16;
    c * 1024 + (dst as u16 % 4) * 256 + imm % 64
}

proof fn lemma_usize_low16(n: usize)
    ensures
        (n as u16) as int == n % 65536,
{
    assert((n as u16) as int == n % 65536) by (bit_vector);
}

proof fn lemma_lookup_some(defs: Seq<(Seq<char>, u16)>, k: Seq<char>)
    ensures
        lookup(defs, k) is Some <==> exists|i: int| 0 <= i < defs.len() && defs[i].0 == k,
    decreases defs.len(),
{
    if defs.len() > 0 {
        lemma_lookup_some(defs.drop_last(), k);
        if lookup(defs, k) is Some {
            if defs.last().0 != k {
                let i = choose|i: int| 0 <= i < defs.len() - 1 && defs.drop_last()[i].0 == k;
                assert(defs[i].0 == k);
            }
        } else {
            assert(defs.last().0 != k);
            assert forall|i: int| 0 <= i < defs.len() implies defs[i].0 != k by {
                if i < defs.len() - 1 {
                    assert(defs.drop_last()[i] == defs[i]);
                }
            }
        }
    }
}

proof fn lemma_pass1_prefix(lines: Seq<(usize, Seq<Seq<char>>)>, origin: u16, i: int)
    requires
        0 <= i <= lines.len(),
        pass1(lines, origin) is Some,
    ensures
        pass1(lines.take(i), origin) is Some,
    decreases lines.len() - i,
{
    if i < lines.len() {
        assert(lines.take(i + 1).drop_last() =~= lines.take(i));
        lemma_pass1_prefix(lines, origin, i + 1);
    } else {
        assert(lines.take(i) =~= lines);
    }
}

proof fn lemma_pass2_sticky(lines: Seq<(usize, Seq<Seq<char>>)>, defs: Seq<(Seq<char>, u16)>, j: int, k: int)
    requires
        0 <= j <= k <= lines.len(),
        !(pass2(lines.take(j), defs) is Words),
    ensures
        pass2(lines.take(k), defs) == pass2(lines.take(j), defs),
    decreases k - j,
{
    if j < k {
        lemma_pass2_sticky(lines, defs, j, k - 1);
        assert(lines.take(k).drop_last() =~= lines.take(k - 1));
    }
}

proof fn lemma_data_sticky(t: Seq<Seq<char>>, defs: Seq<(Seq<char>, u16)>, n: usize, j: nat, k: nat)
    requires
        1 <= j <= k,
        data_spec(t, defs, n, j) is Err,
    ensures
        data_spec(t, defs, n, k) == data_spec(t, defs, n, j),
    decreases k - j,
{
    if j < k {
        lemma_data_sticky(t, defs, n, j, (k - 1) as nat);
    }
}

impl Assembler {
    /// The load address the assembler was made with.
    pub closed spec fn origin_of(&self) -> u16 {
        self.origin
    }

    /// An assembler for code loaded at `origin`.
    pub fn new(origin: u16) -> (a: Assembler)
        ensures
            a.origin_of() == origin,
    {
        Assembler { origin }
    }

    fn instr_size(&self, tokens: &Vec<String>) -> (n: Option<u16>)
        requires
            tokens@.len() > 0,
        ensures
            n == size_spec(tokens@.map_values(|t: String| t@)),
    {
        let ghost tv = tokens@.map_values(|t: String| t@);
        let m = &tokens[0];
        assert(m@ == tv[0]);
        if is_word(m, "JMP") || is_word(m, "JZ") || is_word(m, "JNZ") || is_word(m, "JC") || is_word(
            m,
            "JN",
        ) || is_word(m, "CALL") {
            Some(2)
        } else if is_word(m, "DW") {
            proof {
                lemma_usize_low16(tokens.len());
            }
            let n = tokens.len() as u16;
            if n == 0 {
                None
            } else {
                Some(n - 1)
            }
        } else if is_word(m, "LOAD") && tokens.len() >= 3 {
            assert(tokens[2]@ == tv[2]);
            match resolve_imm_simple(&tokens[2]) {
                Some(n) if n < 0x3E => Some(1),
                _ => Some(2),
            }
        } else {
            Some(1)
        }
    }

    fn emit_data(tokens: &Vec<String>, syms: &Vec<(String, u16)>, lineno: usize) -> (r: Result<Vec<u16>, String>)
        ensures
            ({
                let tv = tokens@.map_values(|t: String| t@);
                match data_spec(tv, symbols_view(syms@), lineno, tv.len()) {
                    Ok(ws) => r is Ok && r->Ok_0@ == ws,
                    Err(e) => r is Err && r->Err_0@ == e,
                }
            }),
    {
        let ghost tv = tokens@.map_values(|t: String| t@);
        let ghost sv = symbols_view(syms@);
        let mut out: Vec<u16> = Vec::new();
        let mut k: usize = 1;
        if tokens.len() <= 1 {
            return Ok(out);
        }
        while k < tokens.len()
            invariant
                1 <= k <= tokens@.len(),
                tv == tokens@.map_values(|t: String| t@),
                sv == symbols_view(syms@),
                data_spec(tv, sv, lineno, k as nat) == Ok::<Seq<u16>, Seq<char>>(out@),
            decreases tokens@.len() - k,
        {
            assert(tokens[k as int]@ == tv[k as int]);
            match resolve_imm(&tokens[k], syms, lineno) {
                Ok(v) => {
                    out.push(v);
                },
                Err(e) => {
                    proof {
                        lemma_data_sticky(tv, sv, lineno, (k + 1) as nat, tv.len());
                    }
                    return Err(e);
                },
            }
            k = k + 1;
        }
        Ok(out)
    }

    fn emit(&self, tokens: &Vec<String>, syms: &Vec<(String, u16)>, lineno: usize) -> (r: Option<Result<Vec<u16>, String>>)
        requires
            tokens@.len() > 0,
        ensures
            match emit_spec(tokens@.map_values(|t: String| t@), symbols_view(syms@), lineno) {
                Emitted::Words(w) => r matches Some(Ok(v)) && v@ == w,
                Emitted::Error(m) => r matches Some(Err(e)) && e@ == m,
                Emitted::Malformed => r is None,
            },
    {
        let ghost tv = tokens@.map_values(|t: String| t@);
        let m = &tokens[0];
        assert(m@ == tv[0]);
        let (form, op) = match mnemonic_exec(m) {
            Some(x) => x,
            None => {
                return Some(Err(line_message(lineno, "Unknown mnemonic '", m, "'")));
            },
        };
        if tokens.len() >= 2 {
            assert(tokens[1]@ == tv[1]);
        }
        if tokens.len() >= 3 {
            assert(tokens[2]@ == tv[2]);
        }
        let r = match form {
            Form::Bare => Ok(vec![encode_bare(op)]),
            Form::Load => {
                if tokens.len() < 3 {
                    return None;
                }
                match resolve_imm_simple(&tokens[2]) {
                    Some(n) if n < 0x3E => match parse_reg(&tokens[1], lineno) {
                        Err(e) => Err(e),
                        Ok(r) => Ok(vec![encode_ri(op, r, n)]),
                    },
                    _ => match resolve_imm(&tokens[2], syms, lineno) {
                        Err(e) => Err(e),
                        Ok(imm) => match parse_reg(&tokens[1], lineno) {
                            Err(e) => Err(e),
                            Ok(r) => Ok(vec![encode_ri(op, r, 0x3E), imm]),
                        },
                    },
                }
            },
            Form::RegReg => {
                if tokens.len() < 2 {
                    return None;
                }
                match parse_reg(&tokens[1], lineno) {
                    Err(e) => Err(e),
                    Ok(d) => {
                        if tokens.len() < 3 {
                            return None;
                        }
                        match parse_reg(&tokens[2], lineno) {
                            Err(e) => Err(e),
                            Ok(s) => Ok(vec![Instruction::encode_rr(op, d, s)]),
                        }
                    },
                }
            },
            Form::RegImm => {
                if tokens.len() < 2 {
                    return None;
                }
                match parse_reg(&tokens[1], lineno) {
                    Err(e) => Err(e),
                    Ok(d) => {
                        if tokens.len() < 3 {
                            return None;
                        }
                        match resolve_imm(&tokens[2], syms, lineno) {
                            Err(e) => Err(e),
                            Ok(v) => Ok(vec![encode_ri(op, d, v)]),
                        }
                    },
                }
            },
            Form::Reg => {
                if tokens.len() < 2 {
                    return None;
                }
                match parse_reg(&tokens[1], lineno) {
                    Err(e) => Err(e),
                    Ok(d) => Ok(vec![encode_r(op, d)]),
                }
            },
            Form::Jump => {
                if tokens.len() < 2 {
                    return None;
                }
                match resolve_imm(&tokens[1], syms, lineno) {
                    Err(e) => Err(e),
                    Ok(a) => Ok(vec![encode_bare(op), a]),
                }
            },
            Form::Int => {
                if tokens.len() < 2 {
                    return None;
                }
                match resolve_imm(&tokens[1], syms, lineno) {
                    Err(e) => Err(e),
                    Ok(v) => Ok(vec![encode_ri(op, 0, v)]),
                }
            },
            Form::Data => Self::emit_data(tokens, syms, lineno),
        };
        Some(r)
    }
}

/// Whether a token ends with `:`.
fn is_label_token(t: &String) -> (b: bool)
    ensures
        b == (t@.len() > 0 && t@.last() == ':'),
{
    let cs = chars_of(t.as_str());
    cs.len() > 0 && cs[cs.len() - 1] == ':'
}

/// A label token without its trailing colons.
fn label_name(t: &String) -> (s: String)
    ensures
        s@ == trim_end(t@, ':'),
{
    let cs = chars_of(t.as_str());
    let k = trimmed_len_of(&cs, ':');
    let s = text_of(&cs, 0, k);
    assert(s@ =~= cs@.take(k as int));
    s
}

/// The instruction part of a token line (see `instr_part`).
fn instr_tokens(tokens: &Vec<String>) -> (r: Vec<String>)
    ensures
        r@.map_values(|t: String| t@) == instr_part(tokens@.map_values(|t: String| t@)),
{
    let ghost tv = tokens@.map_values(|t: String| t@);
    let mut start: usize = 0;
    if tokens.len() > 0 {
        assert(tokens[0]@ == tv[0]);
        if is_label_token(&tokens[0]) {
            start = 1;
        }
    }
    let ghost goal = instr_part(tv);
    assert(goal =~= tv.skip(start as int));
    let mut r: Vec<String> = Vec::new();
    let mut k: usize = start;
    while k < tokens.len()
        invariant
            start <= k <= tokens@.len(),
            tv == tokens@.map_values(|t: String| t@),
            r@.map_values(|t: String| t@) == tv.subrange(start as int, k as int),
        decreases tokens@.len() - k,
    {
        let ghost before = r@.map_values(|t: String| t@);
        r.push(tokens[k].clone());
        assert(r@.map_values(|t: String| t@) =~= before.push(tv[k as int]));
        assert(tv.subrange(start as int, k + 1) =~= tv.subrange(start as int, k as int).push(tv[k as int]));
        k = k + 1;
    }
    assert(tv.subrange(start as int, tokens@.len() as int) =~= tv.skip(start as int));
    r
}

/// The position in `table` of the entry named `name`, if any.
fn find_name(table: &Vec<(String, u16)>, name: &String) -> (r: Option<usize>)
    ensures
        match r {
            Some(j) => j < table@.len() && table@[j as int].0@ == name@,
            None => forall|j: int| 0 <= j < table@.len() ==> table@[j].0@ != name@,
        },
{
    let mut j: usize = 0;
    while j < table.len()
        invariant
            j <= table@.len(),
            forall|i: int| 0 <= i < j ==> table@[i].0@ != name@,
        decreases table@.len() - j,
    {
        if table[j].0 == *name {
            return Some(j);
        }
        j = j + 1;
    }
    None
}

/// One more definition `(k, a)` after `defs`: `k` now looks up to `a`,
/// every other name as before.
proof fn lemma_lookup_push(defs: Seq<(Seq<char>, u16)>, k: Seq<char>, a: u16, x: Seq<char>)
    ensures
        lookup(defs.push((k, a)), x) == (if x == k {
            Some(a)
        } else {
            lookup(defs, x)
        }),
{
    assert(defs.push((k, a)).drop_last() =~= defs);
}

/// The symbol table of a list of label definitions: each name once, with
/// its last address.
fn symbol_table(defs: &Vec<(String, u16)>) -> (table: Vec<(String, u16)>)
    ensures
        symbols_of(symbols_view(table@), symbols_view(defs@)),
{
    let ghost sv = symbols_view(defs@);
    let mut table: Vec<(String, u16)> = Vec::new();
    let mut i: usize = 0;
    while i < defs.len()
        invariant
            i <= defs@.len(),
            sv == symbols_view(defs@),
            symbols_of(symbols_view(table@), sv.take(i as int)),
        decreases defs@.len() - i,
    {
        let ghost before = symbols_view(table@);
        let ghost old_defs = sv.take(i as int);
        let name = defs[i].0.clone();
        let a = defs[i].1;
        assert(sv.take(i + 1) =~= old_defs.push((name@, a)));
        let ghost mut pos: int = before.len() as int;
        match find_name(&table, &name) {
            Some(j) => {
                proof {
                    pos = j as int;
                }
                table.set(j, (name, a));
                let ghost after = symbols_view(table@);
                assert(after =~= before.update(j as int, (before[j as int].0, a)));
            },
            None => {
                table.push((name, a));
                let ghost after = symbols_view(table@);
                assert(after =~= before.push((name@, a)));
            },
        }
        proof {
            let after = symbols_view(table@);
            let nd = sv.take(i + 1);
            assert forall|x: Seq<char>| #![auto] lookup(nd, x) == (if x == name@ {
                Some(a)
            } else {
                lookup(old_defs, x)
            }) by {
                lemma_lookup_push(old_defs, name@, a, x);
            }
            assert forall|p: int, q: int| 0 <= p < q < after.len() implies after[p].0 != after[q].0 by {
                if q == before.len() {
                    assert(after[q].0 == name@);
                    assert(after[p] == before[p]);
                }
            }
            assert forall|p: int| 0 <= p < after.len() implies lookup(nd, #[trigger] after[p].0) == Some(
                after[p].1,
            ) by {
                if after[p].0 != name@ {
                    assert(after[p] == before[p]);
                }
            }
            assert forall|x: Seq<char>| #[trigger] lookup(nd, x) is Some implies exists|p: int|
                0 <= p < after.len() && after[p].0 == x by {
                if x == name@ {
                    assert(0 <= pos < after.len() && after[pos].0 == x);
                } else {
                    assert(lookup(old_defs, x) is Some);
                    let p = choose|p: int| 0 <= p < before.len() && before[p].0 == x;
                    assert(after[p] == before[p]);
                }
            }
        }
        i = i + 1;
    }
    assert(sv.take(defs@.len() as int) =~= sv);
    table
}

/// What assembling token lines gives: `None` for a malformed program (a
/// line lacks an operand its mnemonic needs, or pass 1 cannot size a line),
/// else the first error message or the output (the words, and a symbol
/// table that [`symbols_of`] relates to the labels).
pub open spec fn assembled(r: Option<Result<AssemblyOutput, String>>, lines: Seq<(usize, Seq<Seq<char>>)>, origin: u16) -> bool {
    let (e, defs) = assemble_spec(lines, origin);
    match e {
        Emitted::Malformed => r is None,
        Emitted::Error(m) => r matches Some(Err(s)) && s@ == m,
        Emitted::Words(w) => r matches Some(Ok(out)) && out.words@ == w && symbols_of(
            symbols_view(out.symbols@),
            defs,
        ),
    }
}

impl Assembler {
    fn run_passes(&self, lines: &Vec<(usize, Vec<String>)>) -> (r: Option<Result<AssemblyOutput, String>>)
        ensures
            assembled(r, lines_view(lines@), self.origin_of()),
    {
        let ghost lv = lines_view(lines@);
        let ghost origin = self.origin;
        // Pass 1: label definitions and addresses.
        let mut defs: Vec<(String, u16)> = Vec::new();
        let mut addr = self.origin;
        let mut i: usize = 0;
        assert(lv.take(0) =~= Seq::<(usize, Seq<Seq<char>>)>::empty());
        while i < lines.len()
            invariant
                i <= lines@.len(),
                lv == lines_view(lines@),
                origin == self.origin,
                pass1(lv.take(i as int), origin) == Some((symbols_view(defs@), addr)),
            decreases lines@.len() - i,
        {
            assert(lv.take(i + 1).drop_last() =~= lv.take(i as int));
            assert(lv.take(i + 1).last() == lv[i as int]);
            let tokens = &lines[i].1;
            let ghost tv = tokens@.map_values(|t: String| t@);
            assert(tv == lv[i as int].1);
            if tokens.len() > 0 {
                assert(tokens[0]@ == tv[0]);
            }
            if tokens.len() > 0 && is_label_token(&tokens[0]) {
                let name = label_name(&tokens[0]);
                let ghost before = symbols_view(defs@);
                defs.push((name, addr));
                assert(symbols_view(defs@) =~= before.push((name@, addr)));
            }
            let part = instr_tokens(tokens);
            if part.len() > 0 {
                match self.instr_size(&part) {
                    None => {
                        proof {
                            if pass1(lv, origin) is Some {
                                lemma_pass1_prefix(lv, origin, i + 1);
                            }
                            assert(lv.take(lv.len() as int) =~= lv);
                        }
                        return None;
                    },
                    Some(sz) => {
                        if sz > 32767 {
                            proof {
                                if pass1(lv, origin) is Some {
                                    lemma_pass1_prefix(lv, origin, i + 1);
                                }
                            }
                            return None;
                        }
                        addr = ((addr as u32 + (sz as u32) * 2) % 65536) as u16;
                    },
                }
            }
            i = i + 1;
        }
        assert(lv.take(lines@.len() as int) =~= lv);
        let ghost sv = symbols_view(defs@);
        // Pass 2: the words of each line.
        let mut words: Vec<u16> = Vec::new();
        let mut j: usize = 0;
        while j < lines.len()
            invariant
                j <= lines@.len(),
                lv == lines_view(lines@),
                sv == symbols_view(defs@),
                origin == self.origin,
                pass1(lv, origin) == Some((sv, addr)),
                pass2(lv.take(j as int), sv) == Emitted::Words(words@),
            decreases lines@.len() - j,
        {
            assert(lv.take(j + 1).drop_last() =~= lv.take(j as int));
            assert(lv.take(j + 1).last() == lv[j as int]);
            let n = lines[j].0;
            let tokens = &lines[j].1;
            let ghost tv = tokens@.map_values(|t: String| t@);
            assert(tv == lv[j as int].1);
            if tokens.len() > 0 {
                assert(tokens[0]@ == tv[0]);
            }
            let part = instr_tokens(tokens);
            if part.len() > 0 {
                match self.emit(&part, &defs, n) {
                    None => {
                        proof {
                            lemma_pass2_sticky(lv, sv, j + 1, lv.len() as int);
                            assert(lv.take(lv.len() as int) =~= lv);
                        }
                        return None;
                    },
                    Some(Err(e)) => {
                        proof {
                            lemma_pass2_sticky(lv, sv, j + 1, lv.len() as int);
                            assert(lv.take(lv.len() as int) =~= lv);
                        }
                        return Some(Err(e));
                    },
                    Some(Ok(w)) => {
                        let mut w = w;
                        words.append(&mut w);
                    },
                }
            }
            j = j + 1;
        }
        assert(lv.take(lines@.len() as int) =~= lv);
        let symbols = symbol_table(&defs);
        Some(Ok(AssemblyOutput { words, symbols }))
    }

    /// Assembles a source text: labels are collected in a first pass, then
    /// each line is encoded with labels (forward ones too) resolved. The
    /// error names the line: an unknown mnemonic or register, a bad hex
    /// literal, or an operand that is neither a number nor a label.
    ///
    /// `LOAD` takes one word only for a number below 0x3E; a label operand
    /// always takes the two-word form (marker 0x3E, then the address), even
    /// when the address would fit, because pass 1 sizes the line before the
    /// label's address is known and both passes must agree on its size.
    pub fn assemble(&self, source: &str) -> (r: Result<AssemblyOutput, String>)
        requires
            !(assemble_spec(tokenize_spec(source@), self.origin_of()).0 is Malformed),
        ensures
            assembled(Some(r), tokenize_spec(source@), self.origin_of()),
    {
        let lines = tokenize(source);
        match self.run_passes(&lines) {
            Some(r) => r,
            None => Err(String::new()),
        }
    }

    /// Like [`Assembler::assemble`], but `None` where a line lacks an
    /// operand that its mnemonic needs (or a `DW` line is too long to size).
    pub fn try_assemble(&self, source: &str) -> (r: Option<Result<AssemblyOutput, String>>)
        ensures
            assembled(r, tokenize_spec(source@), self.origin_of()),
    {
        let lines = tokenize(source);
        match self.run_passes(&lines) {
            Some(_) => Some(self.assemble(source)),
            None => None,
        }
    }
}

/// Lines that pass 1 can size as pass 2 emits them: fewer than 65536 tokens
/// each (a longer `DW` line overflows the 16-bit word count).
pub open spec fn sizable(lines: Seq<(usize, Seq<Seq<char>>)>) -> bool {
    forall|i: int| #![trigger lines[i]] 0 <= i < lines.len() ==> lines[i].1.len() < 65536
}

proof fn lemma_data_len(t: Seq<Seq<char>>, defs: Seq<(Seq<char>, u16)>, n: usize, k: nat)
    requires
        k >= 1,
        data_spec(t, defs, n, k) is Ok,
    ensures
        data_spec(t, defs, n, k)->Ok_0.len() == k - 1,
    decreases k,
{
    if k > 1 {
        lemma_data_len(t, defs, n, (k - 1) as nat);
    }
}

/// The mnemonics pass 1 sizes apart are exactly those of the jump, data
/// and load forms.
proof fn lemma_mnemonic_names(m: Seq<char>)
    requires
        mnemonic(m) is Some,
    ensures
        (m == "JMP"@ || m == "JZ"@ || m == "JNZ"@ || m == "JC"@ || m == "JN"@ || m == "CALL"@)
            <==> mnemonic(m)->Some_0.0 is Jump,
        (m == "DW"@) <==> mnemonic(m)->Some_0.0 is Data,
        (m == "LOAD"@) <==> mnemonic(m)->Some_0.0 is Load,
{
    reveal_strlit("NOP");
    assert("NOP"@.len() == 3 && "NOP"@[0] == 'N' && "NOP"@[1] == 'O' && "NOP"@[2] == 'P');
    reveal_strlit("HALT");
    assert("HALT"@.len() == 4 && "HALT"@[0] == 'H' && "HALT"@[1] == 'A' && "HALT"@[2] == 'L' && "HALT"@[3] == 'T');
    reveal_strlit("RET");
    assert("RET"@.len() == 3 && "RET"@[0] == 'R' && "RET"@[1] == 'E' && "RET"@[2] == 'T');
    reveal_strlit("IRET");
    assert("IRET"@.len() == 4 && "IRET"@[0] == 'I' && "IRET"@[1] == 'R' && "IRET"@[2] == 'E' && "IRET"@[3] == 'T');
    reveal_strlit("EI");
    assert("EI"@.len() == 2 && "EI"@[0] == 'E' && "EI"@[1] == 'I');
    reveal_strlit("DI");
    assert("DI"@.len() == 2 && "DI"@[0] == 'D' && "DI"@[1] == 'I');
    reveal_strlit("LOAD");
    assert("LOAD"@.len() == 4 && "LOAD"@[0] == 'L' && "LOAD"@[1] == 'O' && "LOAD"@[2] == 'A' && "LOAD"@[3] == 'D');
    reveal_strlit("LOADM");
    assert("LOADM"@.len() == 5 && "LOADM"@[0] == 'L' && "LOADM"@[1] == 'O' && "LOADM"@[2] == 'A' && "LOADM"@[3] == 'D' && "LOADM"@[4] == 'M');
    reveal_strlit("STORE");
    assert("STORE"@.len() == 5 && "STORE"@[0] == 'S' && "STORE"@[1] == 'T' && "STORE"@[2] == 'O' && "STORE"@[3] == 'R' && "STORE"@[4] == 'E');
    reveal_strlit("MOV");
    assert("MOV"@.len() == 3 && "MOV"@[0] == 'M' && "MOV"@[1] == 'O' && "MOV"@[2] == 'V');
    reveal_strlit("ADD");
    assert("ADD"@.len() == 3 && "ADD"@[0] == 'A' && "ADD"@[1] == 'D' && "ADD"@[2] == 'D');
    reveal_strlit("SUB");
    assert("SUB"@.len() == 3 && "SUB"@[0] == 'S' && "SUB"@[1] == 'U' && "SUB"@[2] == 'B');
    reveal_strlit("ADDI");
    assert("ADDI"@.len() == 4 && "ADDI"@[0] == 'A' && "ADDI"@[1] == 'D' && "ADDI"@[2] == 'D' && "ADDI"@[3] == 'I');
    reveal_strlit("MUL");
    assert("MUL"@.len() == 3 && "MUL"@[0] == 'M' && "MUL"@[1] == 'U' && "MUL"@[2] == 'L');
    reveal_strlit("DIV");
    assert("DIV"@.len() == 3 && "DIV"@[0] == 'D' && "DIV"@[1] == 'I' && "DIV"@[2] == 'V');
    reveal_strlit("AND");
    assert("AND"@.len() == 3 && "AND"@[0] == 'A' && "AND"@[1] == 'N' && "AND"@[2] == 'D');
    reveal_strlit("OR");
    assert("OR"@.len() == 2 && "OR"@[0] == 'O' && "OR"@[1] == 'R');
    reveal_strlit("XOR");
    assert("XOR"@.len() == 3 && "XOR"@[0] == 'X' && "XOR"@[1] == 'O' && "XOR"@[2] == 'R');
    reveal_strlit("NOT");
    assert("NOT"@.len() == 3 && "NOT"@[0] == 'N' && "NOT"@[1] == 'O' && "NOT"@[2] == 'T');
    reveal_strlit("SHL");
    assert("SHL"@.len() == 3 && "SHL"@[0] == 'S' && "SHL"@[1] == 'H' && "SHL"@[2] == 'L');
    reveal_strlit("SHR");
    assert("SHR"@.len() == 3 && "SHR"@[0] == 'S' && "SHR"@[1] == 'H' && "SHR"@[2] == 'R');
    reveal_strlit("CMP");
    assert("CMP"@.len() == 3 && "CMP"@[0] == 'C' && "CMP"@[1] == 'M' && "CMP"@[2] == 'P');
    reveal_strlit("JMP");
    assert("JMP"@.len() == 3 && "JMP"@[0] == 'J' && "JMP"@[1] == 'M' && "JMP"@[2] == 'P');
    reveal_strlit("JZ");
    assert("JZ"@.len() == 2 && "JZ"@[0] == 'J' && "JZ"@[1] == 'Z');
    reveal_strlit("JNZ");
    assert("JNZ"@.len() == 3 && "JNZ"@[0] == 'J' && "JNZ"@[1] == 'N' && "JNZ"@[2] == 'Z');
    reveal_strlit("JC");
    assert("JC"@.len() == 2 && "JC"@[0] == 'J' && "JC"@[1] == 'C');
    reveal_strlit("JN");
    assert("JN"@.len() == 2 && "JN"@[0] == 'J' && "JN"@[1] == 'N');
    reveal_strlit("CALL");
    assert("CALL"@.len() == 4 && "CALL"@[0] == 'C' && "CALL"@[1] == 'A' && "CALL"@[2] == 'L' && "CALL"@[3] == 'L');
    reveal_strlit("PUSH");
    assert("PUSH"@.len() == 4 && "PUSH"@[0] == 'P' && "PUSH"@[1] == 'U' && "PUSH"@[2] == 'S' && "PUSH"@[3] == 'H');
    reveal_strlit("POP");
    assert("POP"@.len() == 3 && "POP"@[0] == 'P' && "POP"@[1] == 'O' && "POP"@[2] == 'P');
    reveal_strlit("INT");
    assert("INT"@.len() == 3 && "INT"@[0] == 'I' && "INT"@[1] == 'N' && "INT"@[2] == 'T');
    reveal_strlit("DW");
    assert("DW"@.len() == 2 && "DW"@[0] == 'D' && "DW"@[1] == 'W');
    reveal_strlit("NEG");
    assert("NEG"@.len() == 3 && "NEG"@[0] == 'N' && "NEG"@[1] == 'E' && "NEG"@[2] == 'G');
    reveal_strlit("MOD");
    assert("MOD"@.len() == 3 && "MOD"@[0] == 'M' && "MOD"@[1] == 'O' && "MOD"@[2] == 'D');
    reveal_strlit("SWAP");
    assert("SWAP"@.len() == 4 && "SWAP"@[0] == 'S' && "SWAP"@[1] == 'W' && "SWAP"@[2] == 'A' && "SWAP"@[3] == 'P');
    reveal_strlit("ROL");
    assert("ROL"@.len() == 3 && "ROL"@[0] == 'R' && "ROL"@[1] == 'O' && "ROL"@[2] == 'L');
    reveal_strlit("ROR");
    assert("ROR"@.len() == 3 && "ROR"@[0] == 'R' && "ROR"@[1] == 'O' && "ROR"@[2] == 'R');
}

/// The size pass 1 gives a line is the number of words pass 2 emits for it.
proof fn lemma_line_size(t: Seq<Seq<char>>, defs: Seq<(Seq<char>, u16)>, n: usize)
    requires
        t.len() > 0,
        t.len() < 65536,
        emit_spec(t, defs, n) is Words,
    ensures
        size_spec(t) is Some,
        size_spec(t)->Some_0 == emit_spec(t, defs, n)->Words_0.len(),
{
    let m = t[0];
    let w = emit_spec(t, defs, n)->Words_0;
    lemma_mnemonic_names(m);
    let (form, op) = mnemonic(m)->Some_0;
    match form {
        Form::Load => {},
        Form::Data => {
            lemma_data_len(t, defs, n, t.len());
            assert(t.len() % 65536 == t.len());
        },
        _ => {},
    }
}

/// Addresses count words: wherever pass 1 has reached after the first `j`
/// lines, the address is `origin` plus two bytes for each word pass 2
/// emits for those lines (modulo 2^16). So a label's address is the load
/// address of the first word after it.
pub proof fn law_address_counts_words(lines: Seq<(usize, Seq<Seq<char>>)>, origin: u16, j: int)
    requires
        0 <= j <= lines.len(),
        pass1(lines, origin) is Some,
        pass2(lines, pass1(lines, origin)->Some_0.0) is Words,
        sizable(lines),
    ensures
        ({
            let defs = pass1(lines, origin)->Some_0.0;
            &&& pass1(lines.take(j), origin) is Some
            &&& pass2(lines.take(j), defs) is Words
            &&& pass1(lines.take(j), origin)->Some_0.1 == add16(
                origin,
                2 * (pass2(lines.take(j), defs)->Words_0.len() as int),
            )
        }),
    decreases j,
{
    let defs = pass1(lines, origin)->Some_0.0;
    lemma_pass1_prefix(lines, origin, j);
    if pass2(lines.take(j), defs) !is Words {
        lemma_pass2_sticky(lines, defs, j, lines.len() as int);
        assert(lines.take(lines.len() as int) =~= lines);
    }
    if j == 0 {
        assert(lines.take(0) =~= Seq::<(usize, Seq<Seq<char>>)>::empty());
        vstd::arithmetic::div_mod::lemma_small_mod(origin as nat, 65536);
    } else {
        law_address_counts_words(lines, origin, j - 1);
        let pre = lines.take(j - 1);
        assert(lines.take(j).drop_last() =~= pre);
        assert(lines.take(j).last() == lines[j - 1]);
        let t = lines[j - 1].1;
        let n = lines[j - 1].0;
        let ws = pass2(pre, defs)->Words_0;
        let a = pass1(pre, origin)->Some_0.1;
        let u = instr_part(t);
        assert(t.len() < 65536);
        if u.len() > 0 {
            lemma_line_size(u, defs, n);
            let w = emit_spec(u, defs, n)->Words_0;
            assert(pass2(lines.take(j), defs)->Words_0 == ws + w);
            lemma_add16_add16(origin, 2 * (ws.len() as int), 2 * (w.len() as int));
        }
    }
}

/// A jump or call whose operand is a label, defined before or after the
/// line, encodes the label's address as its second word.
pub proof fn law_jump_to_label(t: Seq<Seq<char>>, defs: Seq<(Seq<char>, u16)>, n: usize, a: u16)
    requires
        t.len() >= 2,
        mnemonic(t[0]) matches Some((Form::Jump, _)),
        lookup(defs, t[1]) == Some(a),
    ensures
        emit_spec(t, defs, n) == Emitted::Words(seq![bare_word(mnemonic(t[0])->Some_0.1), a]),
{
}

/// For a source text with fewer than 65536 tokens on each line, once
/// assembled: the address pass 1 has reached after the first `j` token
/// lines is `origin` plus two bytes for each word emitted for those lines
/// (modulo 2^16); so a label stands for the address of the word after it.
pub proof fn law_source_addresses_count_words(src: Seq<char>, origin: u16, j: int)
    requires
        0 <= j <= tokenize_spec(src).len(),
        assemble_spec(tokenize_spec(src), origin).0 is Words,
        sizable(tokenize_spec(src)),
    ensures
        ({
            let lines = tokenize_spec(src);
            let defs = assemble_spec(lines, origin).1;
            &&& pass1(lines.take(j), origin) is Some
            &&& pass2(lines.take(j), defs) is Words
            &&& pass1(lines.take(j), origin)->Some_0.1 == add16(
                origin,
                2 * (pass2(lines.take(j), defs)->Words_0.len() as int),
            )
        }),
{
    law_address_counts_words(tokenize_spec(src), origin, j);
}

/// The characters of each mnemonic.
proof fn lemma_mnemonic_spellings()
    ensures
        "NOP"@.len() == 3 && "NOP"@[0] == 'N' && "NOP"@[1] == 'O' && "NOP"@[2] == 'P',
        "HALT"@.len() == 4 && "HALT"@[0] == 'H' && "HALT"@[1] == 'A' && "HALT"@[2] == 'L' && "HALT"@[3] == 'T',
        "RET"@.len() == 3 && "RET"@[0] == 'R' && "RET"@[1] == 'E' && "RET"@[2] == 'T',
        "IRET"@.len() == 4 && "IRET"@[0] == 'I' && "IRET"@[1] == 'R' && "IRET"@[2] == 'E' && "IRET"@[3] == 'T',
        "EI"@.len() == 2 && "EI"@[0] == 'E' && "EI"@[1] == 'I',
        "DI"@.len() == 2 && "DI"@[0] == 'D' && "DI"@[1] == 'I',
        "LOAD"@.len() == 4 && "LOAD"@[0] == 'L' && "LOAD"@[1] == 'O' && "LOAD"@[2] == 'A' && "LOAD"@[3] == 'D',
        "LOADM"@.len() == 5 && "LOADM"@[0] == 'L' && "LOADM"@[1] == 'O' && "LOADM"@[2] == 'A' && "LOADM"@[3] == 'D' && "LOADM"@[4] == 'M',
        "STORE"@.len() == 5 && "STORE"@[0] == 'S' && "STORE"@[1] == 'T' && "STORE"@[2] == 'O' && "STORE"@[3] == 'R' && "STORE"@[4] == 'E',
        "MOV"@.len() == 3 && "MOV"@[0] == 'M' && "MOV"@[1] == 'O' && "MOV"@[2] == 'V',
        "ADD"@.len() == 3 && "ADD"@[0] == 'A' && "ADD"@[1] == 'D' && "ADD"@[2] == 'D',
        "SUB"@.len() == 3 && "SUB"@[0] == 'S' && "SUB"@[1] == 'U' && "SUB"@[2] == 'B',
        "ADDI"@.len() == 4 && "ADDI"@[0] == 'A' && "ADDI"@[1] == 'D' && "ADDI"@[2] == 'D' && "ADDI"@[3] == 'I',
        "MUL"@.len() == 3 && "MUL"@[0] == 'M' && "MUL"@[1] == 'U' && "MUL"@[2] == 'L',
        "DIV"@.len() == 3 && "DIV"@[0] == 'D' && "DIV"@[1] == 'I' && "DIV"@[2] == 'V',
        "AND"@.len() == 3 && "AND"@[0] == 'A' && "AND"@[1] == 'N' && "AND"@[2] == 'D',
        "OR"@.len() == 2 && "OR"@[0] == 'O' && "OR"@[1] == 'R',
        "XOR"@.len() == 3 && "XOR"@[0] == 'X' && "XOR"@[1] == 'O' && "XOR"@[2] == 'R',
        "NOT"@.len() == 3 && "NOT"@[0] == 'N' && "NOT"@[1] == 'O' && "NOT"@[2] == 'T',
        "SHL"@.len() == 3 && "SHL"@[0] == 'S' && "SHL"@[1] == 'H' && "SHL"@[2] == 'L',
        "SHR"@.len() == 3 && "SHR"@[0] == 'S' && "SHR"@[1] == 'H' && "SHR"@[2] == 'R',
        "CMP"@.len() == 3 && "CMP"@[0] == 'C' && "CMP"@[1] == 'M' && "CMP"@[2] == 'P',
        "JMP"@.len() == 3 && "JMP"@[0] == 'J' && "JMP"@[1] == 'M' && "JMP"@[2] == 'P',
        "JZ"@.len() == 2 && "JZ"@[0] == 'J' && "JZ"@[1] == 'Z',
        "JNZ"@.len() == 3 && "JNZ"@[0] == 'J' && "JNZ"@[1] == 'N' && "JNZ"@[2] == 'Z',
        "JC"@.len() == 2 && "JC"@[0] == 'J' && "JC"@[1] == 'C',
        "JN"@.len() == 2 && "JN"@[0] == 'J' && "JN"@[1] == 'N',
        "CALL"@.len() == 4 && "CALL"@[0] == 'C' && "CALL"@[1] == 'A' && "CALL"@[2] == 'L' && "CALL"@[3] == 'L',
        "PUSH"@.len() == 4 && "PUSH"@[0] == 'P' && "PUSH"@[1] == 'U' && "PUSH"@[2] == 'S' && "PUSH"@[3] == 'H',
        "POP"@.len() == 3 && "POP"@[0] == 'P' && "POP"@[1] == 'O' && "POP"@[2] == 'P',
        "INT"@.len() == 3 && "INT"@[0] == 'I' && "INT"@[1] == 'N' && "INT"@[2] == 'T',
        "DW"@.len() == 2 && "DW"@[0] == 'D' && "DW"@[1] == 'W',
        "NEG"@.len() == 3 && "NEG"@[0] == 'N' && "NEG"@[1] == 'E' && "NEG"@[2] == 'G',
        "MOD"@.len() == 3 && "MOD"@[0] == 'M' && "MOD"@[1] == 'O' && "MOD"@[2] == 'D',
        "SWAP"@.len() == 4 && "SWAP"@[0] == 'S' && "SWAP"@[1] == 'W' && "SWAP"@[2] == 'A' && "SWAP"@[3] == 'P',
        "ROL"@.len() == 3 && "ROL"@[0] == 'R' && "ROL"@[1] == 'O' && "ROL"@[2] == 'L',
        "ROR"@.len() == 3 && "ROR"@[0] == 'R' && "ROR"@[1] == 'O' && "ROR"@[2] == 'R',
{
    reveal_strlit("NOP");
    reveal_strlit("HALT");
    reveal_strlit("RET");
    reveal_strlit("IRET");
    reveal_strlit("EI");
    reveal_strlit("DI");
    reveal_strlit("LOAD");
    reveal_strlit("LOADM");
    reveal_strlit("STORE");
    reveal_strlit("MOV");
    reveal_strlit("ADD");
    reveal_strlit("SUB");
    reveal_strlit("ADDI");
    reveal_strlit("MUL");
    reveal_strlit("DIV");
    reveal_strlit("AND");
    reveal_strlit("OR");
    reveal_strlit("XOR");
    reveal_strlit("NOT");
    reveal_strlit("SHL");
    reveal_strlit("SHR");
    reveal_strlit("CMP");
    reveal_strlit("JMP");
    reveal_strlit("JZ");
    reveal_strlit("JNZ");
    reveal_strlit("JC");
    reveal_strlit("JN");
    reveal_strlit("CALL");
    reveal_strlit("PUSH");
    reveal_strlit("POP");
    reveal_strlit("INT");
    reveal_strlit("DW");
    reveal_strlit("NEG");
    reveal_strlit("MOD");
    reveal_strlit("SWAP");
    reveal_strlit("ROL");
    reveal_strlit("ROR");
}

/// The mnemonic of each opcode is its name in upper case.
proof fn lemma_mnemonic_of_name(op: Opcode)
    ensures
        mnemonic(upper(opcode_name(op))) matches Some((f, o)) && o == op && !(f is Data),
{
    lemma_mnemonic_spellings();
    let nm = opcode_name(op);
    match op {
        Opcode::Nop => {
            reveal_strlit("Nop");
            assert("Nop"@.len() == 3 && "Nop"@[0] == 'N' && "Nop"@[1] == 'o' && "Nop"@[2] == 'p');
            assert forall|i: int| 0 <= i < nm.len() implies (nm[i] as u32) < 128 && ascii_upper(nm[i]) == "NOP"@[i] by {
                if i == 0 {
                } else if i == 1 {
                } else {
                }
            }
            assert(upper(nm) =~= "NOP"@);
        },
        Opcode::Load => {
            reveal_strlit("Load");
            assert("Load"@.len() == 4 && "Load"@[0] == 'L' && "Load"@[1] == 'o' && "Load"@[2] == 'a' && "Load"@[3] == 'd');
            assert forall|i: int| 0 <= i < nm.len() implies (nm[i] as u32) < 128 && ascii_upper(nm[i]) == "LOAD"@[i] by {
                if i == 0 {
                } else if i == 1 {
                } else if i == 2 {
                } else {
                }
            }
            assert(upper(nm) =~= "LOAD"@);
        },
        Opcode::LoadM => {
            reveal_strlit("LoadM");
            assert("LoadM"@.len() == 5 && "LoadM"@[0] == 'L' && "LoadM"@[1] == 'o' && "LoadM"@[2] == 'a' && "LoadM"@[3] == 'd' && "LoadM"@[4] == 'M');
            assert forall|i: int| 0 <= i < nm.len() implies (nm[i] as u32) < 128 && ascii_upper(nm[i]) == "LOADM"@[i] by {
                if i == 0 {
                } else if i == 1 {
                } else if i == 2 {
                } else if i == 3 {
                } else {
                }
            }
            assert(upper(nm) =~= "LOADM"@);
        },
        Opcode::Store => {
            reveal_strlit("Store");
            assert("Store"@.len() == 5 && "Store"@[0] == 'S' && "Store"@[1] == 't' && "Store"@[2] == 'o' && "Store"@[3] == 'r' && "Store"@[4] == 'e');
            assert forall|i: int| 0 <= i < nm.len() implies (nm[i] as u32) < 128 && ascii_upper(nm[i]) == "STORE"@[i] by {
                if i == 0 {
                } else if i == 1 {
                } else if i == 2 {
                } else if i == 3 {
                } else {
                }
            }
            assert(upper(nm) =~= "STORE"@);
        },
        Opcode::Mov => {
            reveal_strlit("Mov");
            assert("Mov"@.len() == 3 && "Mov"@[0] == 'M' && "Mov"@[1] == 'o' && "Mov"@[2] == 'v');
            assert forall|i: int| 0 <= i < nm.len() implies (nm[i] as u32) < 128 && ascii_upper(nm[i]) == "MOV"@[i] by {
                if i == 0 {
                } else if i == 1 {
                } else {
                }
            }
            assert(upper(nm) =~= "MOV"@);
        },
        Opcode::Add => {
            reveal_strlit("Add");
            assert("Add"@.len() == 3 && "Add"@[0] == 'A' && "Add"@[1] == 'd' && "Add"@[2] == 'd');
            assert forall|i: int| 0 <= i < nm.len() implies (nm[i] as u32) < 128 && ascii_upper(nm[i]) == "ADD"@[i] by {
                if i == 0 {
                } else if i == 1 {
                } else {
                }
            }
            assert(upper(nm) =~= "ADD"@);
        },
        Opcode::Sub => {
            reveal_strlit("Sub");
            assert("Sub"@.len() == 3 && "Sub"@[0] == 'S' && "Sub"@[1] == 'u' && "Sub"@[2] == 'b');
            assert forall|i: int| 0 <= i < nm.len() implies (nm[i] as u32) < 128 && ascii_upper(nm[i]) == "SUB"@[i] by {
                if i == 0 {
                } else if i == 1 {
                } else {
                }
            }
            assert(upper(nm) =~= "SUB"@);
        },
        Opcode::Addi => {
            reveal_strlit("Addi");
            assert("Addi"@.len() == 4 && "Addi"@[0] == 'A' && "Addi"@[1] == 'd' && "Addi"@[2] == 'd' && "Addi"@[3] == 'i');
            assert forall|i: int| 0 <= i < nm.len() implies (nm[i] as u32) < 128 && ascii_upper(nm[i]) == "ADDI"@[i] by {
                if i == 0 {
                } else if i == 1 {
                } else if i == 2 {
                } else {
                }
            }
            assert(upper(nm) =~= "ADDI"@);
        },
        Opcode::Mul => {
            reveal_strlit("Mul");
            assert("Mul"@.len() == 3 && "Mul"@[0] == 'M' && "Mul"@[1] == 'u' && "Mul"@[2] == 'l');
            assert forall|i: int| 0 <= i < nm.len() implies (nm[i] as u32) < 128 && ascii_upper(nm[i]) == "MUL"@[i] by {
                if i == 0 {
                } else if i == 1 {
                } else {
                }
            }
            assert(upper(nm) =~= "MUL"@);
        },
        Opcode::Div => {
            reveal_strlit("Div");
            assert("Div"@.len() == 3 && "Div"@[0] == 'D' && "Div"@[1] == 'i' && "Div"@[2] == 'v');
            assert forall|i: int| 0 <= i < nm.len() implies (nm[i] as u32) < 128 && ascii_upper(nm[i]) == "DIV"@[i] by {
                if i == 0 {
                } else if i == 1 {
                } else {
                }
            }
            assert(upper(nm) =~= "DIV"@);
        },
        Opcode::And => {
            reveal_strlit("And");
            assert("And"@.len() == 3 && "And"@[0] == 'A' && "And"@[1] == 'n' && "And"@[2] == 'd');
            assert forall|i: int| 0 <= i < nm.len() implies (nm[i] as u32) < 128 && ascii_upper(nm[i]) == "AND"@[i] by {
                if i == 0 {
                } else if i == 1 {
                } else {
                }
            }
            assert(upper(nm) =~= "AND"@);
        },
        Opcode::Or => {
            reveal_strlit("Or");
            assert("Or"@.len() == 2 && "Or"@[0] == 'O' && "Or"@[1] == 'r');
            assert forall|i: int| 0 <= i < nm.len() implies (nm[i] as u32) < 128 && ascii_upper(nm[i]) == "OR"@[i] by {
                if i == 0 {
                } else {
                }
            }
            assert(upper(nm) =~= "OR"@);
        },
        Opcode::Xor => {
            reveal_strlit("Xor");
            assert("Xor"@.len() == 3 && "Xor"@[0] == 'X' && "Xor"@[1] == 'o' && "Xor"@[2] == 'r');
            assert forall|i: int| 0 <= i < nm.len() implies (nm[i] as u32) < 128 && ascii_upper(nm[i]) == "XOR"@[i] by {
                if i == 0 {
                } else if i == 1 {
                } else {
                }
            }
            assert(upper(nm) =~= "XOR"@);
        },
        Opcode::Not => {
            reveal_strlit("Not");
            assert("Not"@.len() == 3 && "Not"@[0] == 'N' && "Not"@[1] == 'o' && "Not"@[2] == 't');
            assert forall|i: int| 0 <= i < nm.len() implies (nm[i] as u32) < 128 && ascii_upper(nm[i]) == "NOT"@[i] by {
                if i == 0 {
                } else if i == 1 {
                } else {
                }
            }
            assert(upper(nm) =~= "NOT"@);
        },
        Opcode::Shl => {
            reveal_strlit("Shl");
            assert("Shl"@.len() == 3 && "Shl"@[0] == 'S' && "Shl"@[1] == 'h' && "Shl"@[2] == 'l');
            assert forall|i: int| 0 <= i < nm.len() implies (nm[i] as u32) < 128 && ascii_upper(nm[i]) == "SHL"@[i] by {
                if i == 0 {
                } else if i == 1 {
                } else {
                }
            }
            assert(upper(nm) =~= "SHL"@);
        },
        Opcode::Shr => {
            reveal_strlit("Shr");
            assert("Shr"@.len() == 3 && "Shr"@[0] == 'S' && "Shr"@[1] == 'h' && "Shr"@[2] == 'r');
            assert forall|i: int| 0 <= i < nm.len() implies (nm[i] as u32) < 128 && ascii_upper(nm[i]) == "SHR"@[i] by {
                if i == 0 {
                } else if i == 1 {
                } else {
                }
            }
            assert(upper(nm) =~= "SHR"@);
        },
        Opcode::Cmp => {
            reveal_strlit("Cmp");
            assert("Cmp"@.len() == 3 && "Cmp"@[0] == 'C' && "Cmp"@[1] == 'm' && "Cmp"@[2] == 'p');
            assert forall|i: int| 0 <= i < nm.len() implies (nm[i] as u32) < 128 && ascii_upper(nm[i]) == "CMP"@[i] by {
                if i == 0 {
                } else if i == 1 {
                } else {
                }
            }
            assert(upper(nm) =~= "CMP"@);
        },
        Opcode::Jmp => {
            reveal_strlit("Jmp");
            assert("Jmp"@.len() == 3 && "Jmp"@[0] == 'J' && "Jmp"@[1] == 'm' && "Jmp"@[2] == 'p');
            assert forall|i: int| 0 <= i < nm.len() implies (nm[i] as u32) < 128 && ascii_upper(nm[i]) == "JMP"@[i] by {
                if i == 0 {
                } else if i == 1 {
                } else {
                }
            }
            assert(upper(nm) =~= "JMP"@);
        },
        Opcode::Jz => {
            reveal_strlit("Jz");
            assert("Jz"@.len() == 2 && "Jz"@[0] == 'J' && "Jz"@[1] == 'z');
            assert forall|i: int| 0 <= i < nm.len() implies (nm[i] as u32) < 128 && ascii_upper(nm[i]) == "JZ"@[i] by {
                if i == 0 {
                } else {
                }
            }
            assert(upper(nm) =~= "JZ"@);
        },
        Opcode::Jnz => {
            reveal_strlit("Jnz");
            assert("Jnz"@.len() == 3 && "Jnz"@[0] == 'J' && "Jnz"@[1] == 'n' && "Jnz"@[2] == 'z');
            assert forall|i: int| 0 <= i < nm.len() implies (nm[i] as u32) < 128 && ascii_upper(nm[i]) == "JNZ"@[i] by {
                if i == 0 {
                } else if i == 1 {
                } else {
                }
            }
            assert(upper(nm) =~= "JNZ"@);
        },
        Opcode::Jc => {
            reveal_strlit("Jc");
            assert("Jc"@.len() == 2 && "Jc"@[0] == 'J' && "Jc"@[1] == 'c');
            assert forall|i: int| 0 <= i < nm.len() implies (nm[i] as u32) < 128 && ascii_upper(nm[i]) == "JC"@[i] by {
                if i == 0 {
                } else {
                }
            }
            assert(upper(nm) =~= "JC"@);
        },
        Opcode::Jn => {
            reveal_strlit("Jn");
            assert("Jn"@.len() == 2 && "Jn"@[0] == 'J' && "Jn"@[1] == 'n');
            assert forall|i: int| 0 <= i < nm.len() implies (nm[i] as u32) < 128 && ascii_upper(nm[i]) == "JN"@[i] by {
                if i == 0 {
                } else {
                }
            }
            assert(upper(nm) =~= "JN"@);
        },
        Opcode::Call => {
            reveal_strlit("Call");
            assert("Call"@.len() == 4 && "Call"@[0] == 'C' && "Call"@[1] == 'a' && "Call"@[2] == 'l' && "Call"@[3] == 'l');
            assert forall|i: int| 0 <= i < nm.len() implies (nm[i] as u32) < 128 && ascii_upper(nm[i]) == "CALL"@[i] by {
                if i == 0 {
                } else if i == 1 {
                } else if i == 2 {
                } else {
                }
            }
            assert(upper(nm) =~= "CALL"@);
        },
        Opcode::Ret => {
            reveal_strlit("Ret");
            assert("Ret"@.len() == 3 && "Ret"@[0] == 'R' && "Ret"@[1] == 'e' && "Ret"@[2] == 't');
            assert forall|i: int| 0 <= i < nm.len() implies (nm[i] as u32) < 128 && ascii_upper(nm[i]) == "RET"@[i] by {
                if i == 0 {
                } else if i == 1 {
                } else {
                }
            }
            assert(upper(nm) =~= "RET"@);
        },
        Opcode::Push => {
            reveal_strlit("Push");
            assert("Push"@.len() == 4 && "Push"@[0] == 'P' && "Push"@[1] == 'u' && "Push"@[2] == 's' && "Push"@[3] == 'h');
            assert forall|i: int| 0 <= i < nm.len() implies (nm[i] as u32) < 128 && ascii_upper(nm[i]) == "PUSH"@[i] by {
                if i == 0 {
                } else if i == 1 {
                } else if i == 2 {
                } else {
                }
            }
            assert(upper(nm) =~= "PUSH"@);
        },
        Opcode::Pop => {
            reveal_strlit("Pop");
            assert("Pop"@.len() == 3 && "Pop"@[0] == 'P' && "Pop"@[1] == 'o' && "Pop"@[2] == 'p');
            assert forall|i: int| 0 <= i < nm.len() implies (nm[i] as u32) < 128 && ascii_upper(nm[i]) == "POP"@[i] by {
                if i == 0 {
                } else if i == 1 {
                } else {
                }
            }
            assert(upper(nm) =~= "POP"@);
        },
        Opcode::Int => {
            reveal_strlit("Int");
            assert("Int"@.len() == 3 && "Int"@[0] == 'I' && "Int"@[1] == 'n' && "Int"@[2] == 't');
            assert forall|i: int| 0 <= i < nm.len() implies (nm[i] as u32) < 128 && ascii_upper(nm[i]) == "INT"@[i] by {
                if i == 0 {
                } else if i == 1 {
                } else {
                }
            }
            assert(upper(nm) =~= "INT"@);
        },
        Opcode::Iret => {
            reveal_strlit("Iret");
            assert("Iret"@.len() == 4 && "Iret"@[0] == 'I' && "Iret"@[1] == 'r' && "Iret"@[2] == 'e' && "Iret"@[3] == 't');
            assert forall|i: int| 0 <= i < nm.len() implies (nm[i] as u32) < 128 && ascii_upper(nm[i]) == "IRET"@[i] by {
                if i == 0 {
                } else if i == 1 {
                } else if i == 2 {
                } else {
                }
            }
            assert(upper(nm) =~= "IRET"@);
        },
        Opcode::Ei => {
            reveal_strlit("Ei");
            assert("Ei"@.len() == 2 && "Ei"@[0] == 'E' && "Ei"@[1] == 'i');
            assert forall|i: int| 0 <= i < nm.len() implies (nm[i] as u32) < 128 && ascii_upper(nm[i]) == "EI"@[i] by {
                if i == 0 {
                } else {
                }
            }
            assert(upper(nm) =~= "EI"@);
        },
        Opcode::Di => {
            reveal_strlit("Di");
            assert("Di"@.len() == 2 && "Di"@[0] == 'D' && "Di"@[1] == 'i');
            assert forall|i: int| 0 <= i < nm.len() implies (nm[i] as u32) < 128 && ascii_upper(nm[i]) == "DI"@[i] by {
                if i == 0 {
                } else {
                }
            }
            assert(upper(nm) =~= "DI"@);
        },
        Opcode::Neg => {
            reveal_strlit("Neg");
            assert("Neg"@.len() == 3 && "Neg"@[0] == 'N' && "Neg"@[1] == 'e' && "Neg"@[2] == 'g');
            assert forall|i: int| 0 <= i < nm.len() implies (nm[i] as u32) < 128 && ascii_upper(nm[i]) == "NEG"@[i] by {
                if i == 0 {
                } else if i == 1 {
                } else {
                }
            }
            assert(upper(nm) =~= "NEG"@);
        },
        Opcode::Mod => {
            reveal_strlit("Mod");
            assert("Mod"@.len() == 3 && "Mod"@[0] == 'M' && "Mod"@[1] == 'o' && "Mod"@[2] == 'd');
            assert forall|i: int| 0 <= i < nm.len() implies (nm[i] as u32) < 128 && ascii_upper(nm[i]) == "MOD"@[i] by {
                if i == 0 {
                } else if i == 1 {
                } else {
                }
            }
            assert(upper(nm) =~= "MOD"@);
        },
        Opcode::Swap => {
            reveal_strlit("Swap");
            assert("Swap"@.len() == 4 && "Swap"@[0] == 'S' && "Swap"@[1] == 'w' && "Swap"@[2] == 'a' && "Swap"@[3] == 'p');
            assert forall|i: int| 0 <= i < nm.len() implies (nm[i] as u32) < 128 && ascii_upper(nm[i]) == "SWAP"@[i] by {
                if i == 0 {
                } else if i == 1 {
                } else if i == 2 {
                } else {
                }
            }
            assert(upper(nm) =~= "SWAP"@);
        },
        Opcode::Rol => {
            reveal_strlit("Rol");
            assert("Rol"@.len() == 3 && "Rol"@[0] == 'R' && "Rol"@[1] == 'o' && "Rol"@[2] == 'l');
            assert forall|i: int| 0 <= i < nm.len() implies (nm[i] as u32) < 128 && ascii_upper(nm[i]) == "ROL"@[i] by {
                if i == 0 {
                } else if i == 1 {
                } else {
                }
            }
            assert(upper(nm) =~= "ROL"@);
        },
        Opcode::Ror => {
            reveal_strlit("Ror");
            assert("Ror"@.len() == 3 && "Ror"@[0] == 'R' && "Ror"@[1] == 'o' && "Ror"@[2] == 'r');
            assert forall|i: int| 0 <= i < nm.len() implies (nm[i] as u32) < 128 && ascii_upper(nm[i]) == "ROR"@[i] by {
                if i == 0 {
                } else if i == 1 {
                } else {
                }
            }
            assert(upper(nm) =~= "ROR"@);
        },
        Opcode::Halt => {
            reveal_strlit("Halt");
            assert("Halt"@.len() == 4 && "Halt"@[0] == 'H' && "Halt"@[1] == 'a' && "Halt"@[2] == 'l' && "Halt"@[3] == 't');
            assert forall|i: int| 0 <= i < nm.len() implies (nm[i] as u32) < 128 && ascii_upper(nm[i]) == "HALT"@[i] by {
                if i == 0 {
                } else if i == 1 {
                } else if i == 2 {
                } else {
                }
            }
            assert(upper(nm) =~= "HALT"@);
        },
    }
}

/// The opcode field (top six bits) of `code * 1024 + x`, for `x` below 1024.
proof fn lemma_opcode_field(code: u8, x: int)
    requires
        code < 64,
        0 <= x < 1024,
    ensures
        field_opcode((code * 1024 + x) as u16) == code,
{
    let v = code * 1024 + x;
    assert(0 <= v < 65536) by (nonlinear_arith)
        requires
            code < 64,
            0 <= x < 1024,
            v == code * 1024 + x,
    ;
    assert(v / 1024 == code) by (nonlinear_arith)
        requires
            0 <= x < 1024,
            v == code * 1024 + x,
    ;
}

/// Each mnemonic assembles to the opcode of the same name: for a line whose
/// mnemonic is an opcode's name in upper case (`SHL` for `Shl`), the first
/// word emitted carries that opcode's code in its top six bits.
pub proof fn law_mnemonic_gives_its_opcode(op: Opcode, t: Seq<Seq<char>>, defs: Seq<(Seq<char>, u16)>, n: usize)
    requires
        t.len() > 0,
        t[0] == upper(opcode_name(op)),
        emit_spec(t, defs, n) is Words,
    ensures
        emit_spec(t, defs, n)->Words_0.len() > 0,
        field_opcode(emit_spec(t, defs, n)->Words_0[0]) == code_of(op),
{
    lemma_mnemonic_of_name(op);
    let (f, o) = mnemonic(t[0])->Some_0;
    let c = code_of(op);
    assert(c < 64);
    let w = emit_spec(t, defs, n)->Words_0;
    match f {
        Form::Bare | Form::Jump => {
            lemma_opcode_field(c, 0);
        },
        Form::Load => {
            let r = reg_spec(t[1], n)->Ok_0;
            if narrow_load(t[2]) {
                lemma_opcode_field(c, (r % 4) * 256 + number_of(t[2])->Some_0 % 64);
            } else {
                lemma_opcode_field(c, (r % 4) * 256 + 0x3E);
            }
        },
        Form::RegReg => {
            let d = reg_spec(t[1], n)->Ok_0;
            let s = reg_spec(t[2], n)->Ok_0;
            lemma_opcode_field(c, (d % 4) * 256 + (s % 4) * 64);
        },
        Form::RegImm => {
            let d = reg_spec(t[1], n)->Ok_0;
            let v = resolve_spec(t[2], defs, n)->Ok_0;
            lemma_opcode_field(c, (d % 4) * 256 + v % 64);
        },
        Form::Reg => {
            let d = reg_spec(t[1], n)->Ok_0;
            lemma_opcode_field(c, (d % 4) * 256);
        },
        Form::Int => {
            let v = resolve_spec(t[1], defs, n)->Ok_0;
            lemma_opcode_field(c, (v % 64) as int);
        },
        Form::Data => {},
    }
}

} // verus!

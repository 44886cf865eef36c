//! The arithmetic and logic operations shared by the single-cycle core and
//! the pipeline: the value each produces and the flags it leaves.

use vstd::prelude::*;
use crate::flags::{
    Flags, arith_flags, logic_flags, shift_flags, signed_overflow, sign, bit_of, with_bit,
    lemma_with_bit, law_condition_flags_keep_ie, C_BIT, Z_BIT, N_BIT, IE_BIT,
};
use crate::isa::Opcode;

verus! {

/// The operations that compute a value and flags from two registers and an
/// immediate.
pub open spec fn is_alu(op: Opcode) -> bool {
    match op {
        Opcode::Add | Opcode::Sub | Opcode::Addi | Opcode::Mul | Opcode::Div | Opcode::Mod
        | Opcode::And | Opcode::Or | Opcode::Xor | Opcode::Not | Opcode::Neg | Opcode::Shl
        | Opcode::Shr | Opcode::Rol | Opcode::Ror | Opcode::Cmp => true,
        _ => false,
    }
}

/// The 6-bit immediate read as a signed number (-32 to 31).
pub open spec fn sext6(imm: u16) -> int {
    if imm % 64 >= 32 {
        (imm % 64) as int - 64
    } else {
        (imm % 64) as int
    }
}

/// Rotates the 17-bit value `x` (carry in bit 16) left by `k` places.
pub open spec fn rotl17(x: u32, k: u32) -> u32 {
    ((x << k) | (x >> ((17u32 - k) as u32))) & 0x1FFFFu32
}

/// Rotates the 17-bit value `x` (carry in bit 16) right by `k` places.
pub open spec fn rotr17(x: u32, k: u32) -> u32 {
    ((x >> k) | (x << ((17u32 - k) as u32))) & 0x1FFFFu32
}

/// A register value with the carry above it, as one 17-bit number.
pub open spec fn with_carry(val: u16, carry: bool) -> u32 {
    if carry {
        0x10000u32 | (val as u32)
    } else {
        val as u32
    }
}

/// The value and flags that an ALU operation produces from `a` (the
/// destination register), `b` (the source register), the immediate and the
/// current flags `f`. DIV and MOD are only meaningful for `b != 0`.
pub open spec fn alu_spec(op: Opcode, a: u16, b: u16, imm: u16, f: u8) -> (u16, u8) {
    match op {
        Opcode::Add => {
            let r = ((a + b) % 65536) as u16;
            (r, arith_flags(f, r, a + b > 0xFFFF, signed_overflow(a, b, r, false)))
        },
        Opcode::Sub | Opcode::Cmp => {
            let r = ((a - b) % 65536) as u16;
            (r, arith_flags(f, r, a >= b, signed_overflow(a, b, r, true)))
        },
        Opcode::Addi => {
            let s = sext6(imm);
            let r = ((a + s) % 65536) as u16;
            (
                r,
                arith_flags(
                    f,
                    r,
                    a + s < 0 || a + s > 0xFFFF,
                    signed_overflow(a, (s % 65536) as u16, r, false),
                ),
            )
        },
        Opcode::Mul => {
            let r = ((a * b) % 65536) as u16;
            (r, logic_flags(f, r))
        },
        Opcode::Div => ((a / b) as u16, logic_flags(f, (a / b) as u16)),
        Opcode::Mod => ((a % b) as u16, logic_flags(f, (a % b) as u16)),
        Opcode::And => (a & b, logic_flags(f, a & b)),
        Opcode::Or => (a | b, logic_flags(f, a | b)),
        Opcode::Xor => (a ^ b, logic_flags(f, a ^ b)),
        Opcode::Not => (!a, logic_flags(f, !a)),
        Opcode::Neg => {
            let r = ((65536 - a) % 65536) as u16;
            (r, arith_flags(f, r, a != 0, a == 0x8000))
        },
        Opcode::Shl => {
            let wide = (a as u32) << ((imm % 16) as u32);
            let r = (wide % 65536) as u16;
            (r, shift_flags(f, r, wide > 0xFFFF))
        },
        Opcode::Shr => {
            let k = (imm % 16) as u16;
            let r = a >> k;
            (r, shift_flags(f, r, k > 0 && (a >> ((k - 1) as u16)) & 1u16 == 1u16))
        },
        Opcode::Rol => {
            let y = rotl17(with_carry(a, bit_of(f, C_BIT)), (imm % 16) as u32);
            let r = (y % 65536) as u16;
            (r, shift_flags(f, r, y >= 65536))
        },
        Opcode::Ror => {
            let y = rotr17(with_carry(a, bit_of(f, C_BIT)), (imm % 16) as u32);
            let r = (y % 65536) as u16;
            (r, shift_flags(f, r, y >= 65536))
        },
        _ => (0, f),
    }
}

/// Rotating right by `k` undoes rotating left by `k`: a ROL followed by a
/// ROR of the same count restores both the value and the carry.
pub proof fn law_rotate_roundtrip(val: u16, carry: bool, k: u32)
    requires
        k < 16,
    ensures
        rotr17(rotl17(with_carry(val, carry), k), k) == with_carry(val, carry),
        rotl17(with_carry(val, carry), k) < 0x20000,
{
    let x = with_carry(val, carry);
    assert(x < 0x20000) by (bit_vector)
        requires x == (if carry { 0x10000u32 | (val as u32) } else { val as u32 });
    assert(rotr17(rotl17(x, k), k) == x && rotl17(x, k) < 0x20000) by (bit_vector)
        requires
            x < 0x20000u32,
            k < 16u32,
    ;
}

/// The rotate instruction's value and carry after ROL then ROR by the same
/// count are the value and carry before.
pub proof fn law_rol_ror_restores(a: u16, imm: u16, f: u8)
    ensures
        ({
            let (r1, f1) = alu_spec(Opcode::Rol, a, 0, imm, f);
            let (r2, f2) = alu_spec(Opcode::Ror, r1, 0, imm, f1);
            r2 == a && bit_of(f2, C_BIT) == bit_of(f, C_BIT)
        }),
{
    let k = (imm % 16) as u32;
    let c = bit_of(f, C_BIT);
    let x = with_carry(a, c);
    law_rotate_roundtrip(a, c, k);
    let y = rotl17(x, k);
    let r1 = (y % 65536) as u16;
    let f1 = shift_flags(f, r1, y >= 65536);
    law_shift_flags_read_back(f, r1, y >= 65536);
    assert(bit_of(f1, C_BIT) == (y >= 65536));
    assert(with_carry(r1, y >= 65536) == y) by (bit_vector)
        requires
            y < 0x20000u32,
            r1 == (y % 65536) as u16,
    ;
    assert(rotr17(y, k) == x);
    let r2 = (x % 65536) as u16;
    assert(r2 == a && (x >= 65536) == c) by (bit_vector)
        requires
            x == (if c { 0x10000u32 | (a as u32) } else { a as u32 }),
            r2 == (x % 65536) as u16,
    ;
    law_shift_flags_read_back(f1, r2, x >= 65536);
}

/// After a shift or rotate update, C reads back as the bit shifted out and
/// Z and N from the result.
pub proof fn law_shift_flags_read_back(f: u8, r: u16, carry: bool)
    ensures
        bit_of(shift_flags(f, r, carry), C_BIT) == carry,
        bit_of(shift_flags(f, r, carry), Z_BIT) == (r == 0),
        bit_of(shift_flags(f, r, carry), N_BIT) == sign(r),
{
    let a1 = with_bit(f, Z_BIT, r == 0);
    let a2 = with_bit(a1, N_BIT, sign(r));
    lemma_with_bit(a2, C_BIT, carry, C_BIT);
    lemma_with_bit(f, Z_BIT, r == 0, Z_BIT);
    lemma_with_bit(a1, N_BIT, sign(r), Z_BIT);
    lemma_with_bit(a2, C_BIT, carry, Z_BIT);
    lemma_with_bit(a1, N_BIT, sign(r), N_BIT);
    lemma_with_bit(a2, C_BIT, carry, N_BIT);
}

/// No ALU operation changes the Interrupt Enable flag.
pub proof fn lemma_alu_keeps_ie(op: Opcode, a: u16, b: u16, imm: u16, f: u8)
    ensures
        bit_of(alu_spec(op, a, b, imm, f).1, IE_BIT) == bit_of(f, IE_BIT),
{
    let (r, _) = alu_spec(op, a, b, imm, f);
    law_condition_flags_keep_ie(f, r, true, true);
    law_condition_flags_keep_ie(f, r, true, false);
    law_condition_flags_keep_ie(f, r, false, true);
    law_condition_flags_keep_ie(f, r, false, false);
}

proof fn lemma_with_carry_bound(val: u16, carry: bool)
    ensures
        with_carry(val, carry) < 0x20000,
{
    let x = with_carry(val, carry);
    assert(x < 0x20000) by (bit_vector)
        requires x == (if carry { 0x10000u32 | (val as u32) } else { val as u32 });
}

proof fn lemma_rotate_zero(x: u32)
    requires
        x < 0x20000,
    ensures
        rotl17(x, 0) == x,
        rotr17(x, 0) == x,
{
    assert(rotl17(x, 0) == x && rotr17(x, 0) == x) by (bit_vector)
        requires x < 0x20000u32;
}

proof fn lemma_low16(r: u32)
    ensures
        (r as u16) as int == r % 65536,
{
    assert((r as u16) as int == r % 65536) by (bit_vector);
}

/// Computes an ALU operation: the value and the new flags.
pub(crate) fn alu(op: Opcode, a: u16, b: u16, imm: u16, flags: Flags) -> (r: (u16, Flags))
    requires
        is_alu(op),
        (op == Opcode::Div || op == Opcode::Mod) ==> b != 0,
    ensures
        (r.0, r.1.0) == alu_spec(op, a, b, imm, flags.0),
{
    let mut f = flags;
    match op {
        Opcode::Add => {
            let r = a as u32 + b as u32;
            proof {
                lemma_low16(r);
            }
            f.update_arithmetic(r, a, b, false);
            (r as u16, f)
        },
        Opcode::Sub | Opcode::Cmp => {
            let r = (a as u32).wrapping_add((!b as u32).wrapping_add(1));
            assert(!b == 65535 - b) by (bit_vector);
            assert(r == a + 65536 - b);
            proof {
                lemma_low16(r);
            }
            f.update_arithmetic(r, a, b, true);
            (r as u16, f)
        },
        Opcode::Addi => {
            let imm6 = imm & 0x3F;
            assert(imm6 == imm % 64) by (bit_vector)
                requires imm6 == imm & 0x3F;
            let signed: i16 = if imm6 & 0x20 != 0 {
                assert(imm6 & 0x20 != 0 <==> imm6 >= 32) by (bit_vector)
                    requires imm6 < 64;
                (imm6 as i32 - 64) as i16
            } else {
                assert(imm6 & 0x20 != 0 <==> imm6 >= 32) by (bit_vector)
                    requires imm6 < 64;
                imm6 as i16
            };
            assert(signed == sext6(imm));
            let sum: i32 = a as i32 + signed as i32;
            let r: u32 = if sum < 0 {
                (sum + 0x20000) as u32
            } else {
                sum as u32
            };
            let bs: u16 = if signed < 0 {
                (signed as i32 + 65536) as u16
            } else {
                signed as u16
            };
            assert(bs == (sext6(imm) % 65536) as u16);
            proof {
                lemma_low16(r);
            }
            f.update_arithmetic(r, a, bs, false);
            assert((r > 0xFFFF) == (sum < 0 || sum > 0xFFFF));
            assert(r as u16 == ((a + sext6(imm)) % 65536) as u16);
            (r as u16, f)
        },
        Opcode::Mul => {
            assert(a * b <= 0xFFFE0001) by (nonlinear_arith)
                requires a < 65536, b < 65536;
            let r = a as u32 * b as u32;
            assert(r == a * b) by (nonlinear_arith)
                requires r == a as u32 * b as u32, a < 65536, b < 65536;
            let r16 = r as u16;
            proof {
                lemma_low16(r);
            }
            f.update_logical(r16);
            (r16, f)
        },
        Opcode::Div => {
            let r = a / b;
            f.update_logical(r);
            (r, f)
        },
        Opcode::Mod => {
            let r = a % b;
            f.update_logical(r);
            (r, f)
        },
        Opcode::And => {
            let r = a & b;
            f.update_logical(r);
            (r, f)
        },
        Opcode::Or => {
            let r = a | b;
            f.update_logical(r);
            (r, f)
        },
        Opcode::Xor => {
            let r = a ^ b;
            f.update_logical(r);
            (r, f)
        },
        Opcode::Not => {
            let r = !a;
            f.update_logical(r);
            (r, f)
        },
        Opcode::Neg => {
            let r16: u16 = if a == 0 {
                0
            } else {
                (65536u32 - a as u32) as u16
            };
            assert(r16 == ((65536 - a) % 65536) as u16);
            f.set_zero(r16 == 0);
            let neg = r16 & 0x8000 != 0;
            assert(neg == sign(r16)) by (bit_vector)
                requires neg == (r16 & 0x8000 != 0);
            f.set_negative(neg);
            f.set_carry(a != 0);
            f.set_overflow(a == 0x8000);
            (r16, f)
        },
        Opcode::Shl => {
            let shift = (imm & 0xF) as u32;
            assert(shift == imm % 16) by (bit_vector)
                requires shift == (imm & 0xF) as u32;
            let r = (a as u32) << shift;
            let r16 = r as u16;
            proof {
                lemma_low16(r);
            }
            f.update_shift(r16, r > 0xFFFF);
            (r16, f)
        },
        Opcode::Shr => {
            let shift = (imm & 0xF) as u16;
            assert(shift == imm % 16) by (bit_vector)
                requires shift == imm & 0xF;
            let r = a >> shift;
            let out = shift > 0 && (a >> (shift - 1)) & 1 == 1;
            f.update_shift(r, out);
            (r, f)
        },
        Opcode::Rol => {
            let count = (imm & 0xF) as u32;
            assert(count == imm % 16) by (bit_vector)
                requires count == (imm & 0xF) as u32;
            let mut val = a;
            let mut carry = flags.carry();
            let ghost x0 = with_carry(a, carry);
            proof {
                lemma_with_carry_bound(a, carry);
                lemma_rotate_zero(x0);
            }
            let mut i: u32 = 0;
            while i < count
                invariant
                    i <= count,
                    count < 16,
                    x0 < 0x20000,
                    with_carry(val, carry) == rotl17(x0, i),
                decreases count - i,
            {
                let new_carry = val & 0x8000 != 0;
                let nv = (val << 1) | (carry as u16);
                proof {
                    let y = with_carry(val, carry);
                    let ny = with_carry(nv, new_carry);
                    assert(ny == rotl17(x0, (i + 1) as u32)) by (bit_vector)
                        requires
                            x0 < 0x20000u32,
                            i < 16u32,
                            y == rotl17(x0, i),
                            y == (if carry { 0x10000u32 | (val as u32) } else { val as u32 }),
                            ny == (if new_carry { 0x10000u32 | (nv as u32) } else { nv as u32 }),
                            new_carry == (val & 0x8000u16 != 0u16),
                            nv == (val << 1u16) | (if carry { 1u16 } else { 0u16 }),
                    ;
                }
                val = nv;
                carry = new_carry;
                i = i + 1;
            }
            proof {
                let y = with_carry(val, carry);
                assert((y % 65536) as u16 == val && (y >= 65536) == carry) by (bit_vector)
                    requires y == (if carry { 0x10000u32 | (val as u32) } else { val as u32 });
            }
            f.update_shift(val, carry);
            (val, f)
        },
        Opcode::Ror => {
            let count = (imm & 0xF) as u32;
            assert(count == imm % 16) by (bit_vector)
                requires count == (imm & 0xF) as u32;
            let mut val = a;
            let mut carry = flags.carry();
            let ghost x0 = with_carry(a, carry);
            proof {
                lemma_with_carry_bound(a, carry);
                lemma_rotate_zero(x0);
            }
            let mut i: u32 = 0;
            while i < count
                invariant
                    i <= count,
                    count < 16,
                    x0 < 0x20000,
                    with_carry(val, carry) == rotr17(x0, i),
                decreases count - i,
            {
                let new_carry = val & 0x0001 != 0;
                let nv = (val >> 1) | ((carry as u16) << 15);
                proof {
                    let y = with_carry(val, carry);
                    let ny = with_carry(nv, new_carry);
                    assert(ny == rotr17(x0, (i + 1) as u32)) by (bit_vector)
                        requires
                            x0 < 0x20000u32,
                            i < 16u32,
                            y == rotr17(x0, i),
                            y == (if carry { 0x10000u32 | (val as u32) } else { val as u32 }),
                            ny == (if new_carry { 0x10000u32 | (nv as u32) } else { nv as u32 }),
                            new_carry == (val & 1u16 != 0u16),
                            nv == (val >> 1u16) | ((if carry { 1u16 } else { 0u16 }) << 15u16),
                    ;
                }
                val = nv;
                carry = new_carry;
                i = i + 1;
            }
            proof {
                let y = with_carry(val, carry);
                assert((y % 65536) as u16 == val && (y >= 65536) == carry) by (bit_vector)
                    requires y == (if carry { 0x10000u32 | (val as u32) } else { val as u32 });
            }
            f.update_shift(val, carry);
            (val, f)
        },
        _ => (0, f),
    }
}

/// A 16-bit word read as a two's-complement number.
pub open spec fn signed16(x: u16) -> int {
    if x >= 0x8000 {
        x - 65536
    } else {
        x as int
    }
}

/// SUB and CMP compute `a - b` modulo 2^16 and set V exactly when the signed
/// difference leaves -32768..32767, C exactly when no borrow occurs
/// (`a >= b`), Z when the result is zero and N when its top bit is set.
pub proof fn law_sub_flags(op: Opcode, a: u16, b: u16, imm: u16, f: u8)
    requires
        op == Opcode::Sub || op == Opcode::Cmp,
    ensures
        ({
            let (r, g) = alu_spec(op, a, b, imm, f);
            let d = signed16(a) - signed16(b);
            &&& r as int == (a - b + 65536) % 65536
            &&& ((g >> 3u8) & 1u8 == 1u8) == (d < -32768 || d > 32767)
            &&& ((g >> 1u8) & 1u8 == 1u8) == (a >= b)
            &&& ((g >> 0u8) & 1u8 == 1u8) == (r == 0)
            &&& ((g >> 2u8) & 1u8 == 1u8) == (r >= 0x8000)
        }),
{
    let r = ((a - b) % 65536) as u16;
    crate::flags::law_arith_flags_read_back(f, r, a >= b, signed_overflow(a, b, r, true));
}

/// ADD computes `a + b` modulo 2^16 and sets V exactly when the signed sum
/// leaves -32768..32767 and C exactly when the unsigned sum exceeds 0xFFFF.
pub proof fn law_add_flags(a: u16, b: u16, imm: u16, f: u8)
    ensures
        ({
            let (r, g) = alu_spec(Opcode::Add, a, b, imm, f);
            let s = signed16(a) + signed16(b);
            &&& r as int == (a + b) % 65536
            &&& ((g >> 3u8) & 1u8 == 1u8) == (s < -32768 || s > 32767)
            &&& ((g >> 1u8) & 1u8 == 1u8) == (a + b > 0xFFFF)
        }),
{
    let r = ((a + b) % 65536) as u16;
    crate::flags::law_arith_flags_read_back(f, r, a + b > 0xFFFF, signed_overflow(a, b, r, false));
}

/// Every ALU operation sets Z exactly when its 16-bit result is zero and N
/// exactly when the result's top bit is set (bits 0 and 2 of FLAGS).
pub proof fn law_alu_zero_negative(op: Opcode, a: u16, b: u16, imm: u16, f: u8)
    requires
        is_alu(op),
    ensures
        ({
            let (r, g) = alu_spec(op, a, b, imm, f);
            &&& (g & 1u8 != 0u8) == (r == 0)
            &&& (g & 4u8 != 0u8) == (r >= 0x8000)
        }),
{
    let (r, g) = alu_spec(op, a, b, imm, f);
    assert(((g >> 0u8) & 1u8 == 1u8) == (g & 1u8 != 0u8)) by (bit_vector);
    assert(((g >> 2u8) & 1u8 == 1u8) == (g & 4u8 != 0u8)) by (bit_vector);
    crate::flags::law_logic_flags_read_back(f, r);
    match op {
        Opcode::Add => {
            crate::flags::law_arith_flags_read_back(f, r, a + b > 0xFFFF, signed_overflow(a, b, r, false));
        },
        Opcode::Sub | Opcode::Cmp => {
            crate::flags::law_arith_flags_read_back(f, r, a >= b, signed_overflow(a, b, r, true));
        },
        Opcode::Addi => {
            let x = sext6(imm);
            crate::flags::law_arith_flags_read_back(
                f,
                r,
                a + x < 0 || a + x > 0xFFFF,
                signed_overflow(a, (x % 65536) as u16, r, false),
            );
        },
        Opcode::Neg => {
            crate::flags::law_arith_flags_read_back(f, r, a != 0, a == 0x8000);
        },
        Opcode::Shl => {
            let wide = (a as u32) << ((imm % 16) as u32);
            law_shift_flags_read_back(f, r, wide > 0xFFFF);
        },
        Opcode::Shr => {
            let k = (imm % 16) as u16;
            law_shift_flags_read_back(f, r, k > 0 && (a >> ((k - 1) as u16)) & 1u16 == 1u16);
        },
        Opcode::Rol => {
            let y = rotl17(with_carry(a, bit_of(f, C_BIT)), (imm % 16) as u32);
            law_shift_flags_read_back(f, r, y >= 65536);
        },
        Opcode::Ror => {
            let y = rotr17(with_carry(a, bit_of(f, C_BIT)), (imm % 16) as u32);
            law_shift_flags_read_back(f, r, y >= 65536);
        },
        _ => {},
    }
}

/// The values the arithmetic operations compute, by how they undo each
/// other: SUB's result plus `b` gives back `a`, NEG's result plus `a` is
/// zero (modulo 2^16), ADD and MUL keep the low 16 bits of the sum and the
/// product, and DIV and MOD by a nonzero `b` split `a` into quotient and
/// remainder.
pub proof fn law_alu_arithmetic(a: u16, b: u16, imm: u16, f: u8)
    ensures
        (alu_spec(Opcode::Add, a, b, imm, f).0 as int) == (a + b) % 65536,
        (alu_spec(Opcode::Sub, a, b, imm, f).0 + b) % 65536 == a as int,
        (alu_spec(Opcode::Neg, a, b, imm, f).0 + a) % 65536 == 0,
        (alu_spec(Opcode::Mul, a, b, imm, f).0 as int) == (a * b) % 65536,
        b != 0 ==> ({
            let q = alu_spec(Opcode::Div, a, b, imm, f).0;
            let m = alu_spec(Opcode::Mod, a, b, imm, f).0;
            &&& a as int == q * b + m
            &&& m < b
        }),
{
    if b != 0 {
        let q = a / b;
        let m = a % b;
        assert(a as int == q * b + m && m < b && q <= a) by (nonlinear_arith)
            requires
                b != 0,
                q == a / b,
                m == a % b,
        ;
    }
}

} // verus!

//! The FLAGS register.
//!
//! Bit layout: bit 0 Zero (Z), bit 1 Carry (C), bit 2 Negative (N),
//! bit 3 Overflow (V), bit 7 Interrupt Enable (IE).

use vstd::prelude::*;
use crate::text::{push_dec, dec};

verus! {

/// Bit index of the Zero flag.
pub const Z_BIT: u8 = 0;
/// Bit index of the Carry flag.
pub const C_BIT: u8 = 1;
/// Bit index of the Negative flag.
pub const N_BIT: u8 = 2;
/// Bit index of the Overflow flag.
pub const V_BIT: u8 = 3;
/// Bit index of the Interrupt Enable flag.
pub const IE_BIT: u8 = 7;

/// Whether bit `i` of the flags byte `f` is set.
pub open spec fn bit_of(f: u8, i: u8) -> bool {
    (f >> i) & 1u8 == 1u8
}

/// `f` with bit `i` set to `v` and every other bit kept.
pub open spec fn with_bit(f: u8, i: u8, v: bool) -> u8 {
    if v {
        f | (1u8 << i)
    } else {
        f & !(1u8 << i)
    }
}

/// Whether a 16-bit value is negative read as two's complement (bit 15 set).
pub open spec fn sign(x: u16) -> bool {
    x >= 0x8000
}

/// Signed overflow of `a + b` (or of `a - b` when `is_sub`) giving `r`:
/// for an addition both inputs differ in sign from the result, for a
/// subtraction the inputs differ in sign and the result differs from `a`.
pub open spec fn signed_overflow(a: u16, b: u16, r: u16, is_sub: bool) -> bool {
    if is_sub {
        sign(a) != sign(b) && sign(a) != sign(r)
    } else {
        sign(a) != sign(r) && sign(b) != sign(r)
    }
}

/// Flags after an arithmetic result `r` with the given carry and overflow:
/// Z, N, C and V are written, every other bit is kept.
pub open spec fn arith_flags(f: u8, r: u16, carry: bool, overflow: bool) -> u8 {
    with_bit(with_bit(with_bit(with_bit(f, Z_BIT, r == 0), N_BIT, sign(r)), C_BIT, carry), V_BIT, overflow)
}

/// Flags after a logical result `r`: Z and N from `r`, C cleared, V and IE kept.
pub open spec fn logic_flags(f: u8, r: u16) -> u8 {
    with_bit(with_bit(with_bit(f, Z_BIT, r == 0), N_BIT, sign(r)), C_BIT, false)
}

/// Flags after a shift or rotate: Z and N from `r`, C from the bit shifted
/// out, V and IE kept.
pub open spec fn shift_flags(f: u8, r: u16, carry: bool) -> u8 {
    with_bit(with_bit(with_bit(f, Z_BIT, r == 0), N_BIT, sign(r)), C_BIT, carry)
}

/// The flags text `[Z:z C:c N:n V:v IE:i]`, each flag as 0 or 1.
pub open spec fn flags_text(f: u8) -> Seq<char> {
    "[Z:"@ + dec(bit_of(f, Z_BIT) as nat) + " C:"@ + dec(bit_of(f, C_BIT) as nat) + " N:"@
        + dec(bit_of(f, N_BIT) as nat) + " V:"@ + dec(bit_of(f, V_BIT) as nat) + " IE:"@
        + dec(bit_of(f, IE_BIT) as nat) + "]"@
}

/// Writing bit `i` and reading it back gives what was written; reading any
/// other bit gives what was there before.
pub proof fn lemma_with_bit(f: u8, i: u8, v: bool, j: u8)
    requires
        i < 8,
        j < 8,
    ensures
        bit_of(with_bit(f, i, v), i) == v,
        i != j ==> bit_of(with_bit(f, i, v), j) == bit_of(f, j),
{
    if v {
        assert(((f | (1u8 << i)) >> i) & 1u8 == 1u8) by (bit_vector)
            requires i < 8;
        assert(i != j ==> (((f | (1u8 << i)) >> j) & 1u8 == 1u8) == ((f >> j) & 1u8 == 1u8))
            by (bit_vector)
            requires i < 8, j < 8;
    } else {
        assert(((f & !(1u8 << i)) >> i) & 1u8 == 0u8) by (bit_vector)
            requires i < 8;
        assert(i != j ==> (((f & !(1u8 << i)) >> j) & 1u8 == 1u8) == ((f >> j) & 1u8 == 1u8))
            by (bit_vector)
            requires i < 8, j < 8;
    }
}

/// Arithmetic, logical and shift flag updates never touch the Interrupt
/// Enable bit.
pub proof fn law_condition_flags_keep_ie(f: u8, r: u16, carry: bool, overflow: bool)
    ensures
        bit_of(arith_flags(f, r, carry, overflow), IE_BIT) == bit_of(f, IE_BIT),
        bit_of(logic_flags(f, r), IE_BIT) == bit_of(f, IE_BIT),
        bit_of(shift_flags(f, r, carry), IE_BIT) == bit_of(f, IE_BIT),
{
    let a1 = with_bit(f, Z_BIT, r == 0);
    let a2 = with_bit(a1, N_BIT, sign(r));
    let a3 = with_bit(a2, C_BIT, carry);
    lemma_with_bit(f, Z_BIT, r == 0, IE_BIT);
    lemma_with_bit(a1, N_BIT, sign(r), IE_BIT);
    lemma_with_bit(a2, C_BIT, carry, IE_BIT);
    lemma_with_bit(a3, V_BIT, overflow, IE_BIT);
    lemma_with_bit(a2, C_BIT, false, IE_BIT);
}

/// After an arithmetic update the four condition flags read back as the
/// result's zero test, its sign, the carry and the overflow.
pub proof fn law_arith_flags_read_back(f: u8, r: u16, carry: bool, overflow: bool)
    ensures
        bit_of(arith_flags(f, r, carry, overflow), Z_BIT) == (r == 0),
        bit_of(arith_flags(f, r, carry, overflow), N_BIT) == sign(r),
        bit_of(arith_flags(f, r, carry, overflow), C_BIT) == carry,
        bit_of(arith_flags(f, r, carry, overflow), V_BIT) == overflow,
{
    let a1 = with_bit(f, Z_BIT, r == 0);
    let a2 = with_bit(a1, N_BIT, sign(r));
    let a3 = with_bit(a2, C_BIT, carry);
    lemma_with_bit(f, Z_BIT, r == 0, Z_BIT);
    lemma_with_bit(a1, N_BIT, sign(r), Z_BIT);
    lemma_with_bit(a2, C_BIT, carry, Z_BIT);
    lemma_with_bit(a3, V_BIT, overflow, Z_BIT);
    lemma_with_bit(a1, N_BIT, sign(r), N_BIT);
    lemma_with_bit(a2, C_BIT, carry, N_BIT);
    lemma_with_bit(a3, V_BIT, overflow, N_BIT);
    lemma_with_bit(a2, C_BIT, carry, C_BIT);
    lemma_with_bit(a3, V_BIT, overflow, C_BIT);
    lemma_with_bit(a3, V_BIT, overflow, V_BIT);
}

/// After a logical update Z and N read back from the result, C reads clear
/// and V is unchanged.
pub proof fn law_logic_flags_read_back(f: u8, r: u16)
    ensures
        bit_of(logic_flags(f, r), Z_BIT) == (r == 0),
        bit_of(logic_flags(f, r), N_BIT) == sign(r),
        !bit_of(logic_flags(f, r), C_BIT),
        bit_of(logic_flags(f, r), V_BIT) == bit_of(f, V_BIT),
{
    let a1 = with_bit(f, Z_BIT, r == 0);
    let a2 = with_bit(a1, N_BIT, sign(r));
    lemma_with_bit(f, Z_BIT, r == 0, Z_BIT);
    lemma_with_bit(a1, N_BIT, sign(r), Z_BIT);
    lemma_with_bit(a2, C_BIT, false, Z_BIT);
    lemma_with_bit(a1, N_BIT, sign(r), N_BIT);
    lemma_with_bit(a2, C_BIT, false, N_BIT);
    lemma_with_bit(a2, C_BIT, false, C_BIT);
    lemma_with_bit(f, Z_BIT, r == 0, V_BIT);
    lemma_with_bit(a1, N_BIT, sign(r), V_BIT);
    lemma_with_bit(a2, C_BIT, false, V_BIT);
}

/// The FLAGS register (see the module documentation for the bit layout).
#[derive(Debug, Clone, Copy)]
pub struct Flags(pub u8);

impl Default for Flags {
    fn default() -> (f: Flags)
        ensures
            f.0 == 0,
    {
        Flags(0)
    }
}

impl Flags {
    fn get_bit(&self, bit: u8) -> (b: bool)
        requires
            bit < 8,
        ensures
            b == bit_of(self.0, bit),
    {
        let f = self.0;
        let r = f & (1u8 << bit) != 0;
        assert(r == bit_of(f, bit)) by (bit_vector)
            requires
                bit < 8,
                r == (f & (1u8 << bit) != 0),
        ;
        r
    }

    fn set_bit(&mut self, bit: u8, v: bool)
        requires
            bit < 8,
        ensures
            final(self).0 == with_bit(old(self).0, bit, v),
    {
        if v {
            self.0 |= 1 << bit;
        } else {
            self.0 &= !(1 << bit);
        }
    }

    /// The Zero flag (bit 0).
    pub fn zero(&self) -> (b: bool)
        ensures
            b == bit_of(self.0, Z_BIT),
    {
        self.get_bit(Z_BIT)
    }

    /// The Carry flag (bit 1).
    pub fn carry(&self) -> (b: bool)
        ensures
            b == bit_of(self.0, C_BIT),
    {
        self.get_bit(C_BIT)
    }

    /// The Negative flag (bit 2).
    pub fn negative(&self) -> (b: bool)
        ensures
            b == bit_of(self.0, N_BIT),
    {
        self.get_bit(N_BIT)
    }

    /// The Overflow flag (bit 3).
    pub fn overflow(&self) -> (b: bool)
        ensures
            b == bit_of(self.0, V_BIT),
    {
        self.get_bit(V_BIT)
    }

    /// The Interrupt Enable flag (bit 7).
    pub fn int_enable(&self) -> (b: bool)
        ensures
            b == bit_of(self.0, IE_BIT),
    {
        self.get_bit(IE_BIT)
    }

    /// Sets or clears the Zero flag.
    pub fn set_zero(&mut self, v: bool)
        ensures
            final(self).0 == with_bit(old(self).0, Z_BIT, v),
    {
        self.set_bit(Z_BIT, v);
    }

    /// Sets or clears the Carry flag.
    pub fn set_carry(&mut self, v: bool)
        ensures
            final(self).0 == with_bit(old(self).0, C_BIT, v),
    {
        self.set_bit(C_BIT, v);
    }

    /// Sets or clears the Negative flag.
    pub fn set_negative(&mut self, v: bool)
        ensures
            final(self).0 == with_bit(old(self).0, N_BIT, v),
    {
        self.set_bit(N_BIT, v);
    }

    /// Sets or clears the Overflow flag.
    pub fn set_overflow(&mut self, v: bool)
        ensures
            final(self).0 == with_bit(old(self).0, V_BIT, v),
    {
        self.set_bit(V_BIT, v);
    }

    /// Sets or clears the Interrupt Enable flag.
    pub fn set_int_enable(&mut self, v: bool)
        ensures
            final(self).0 == with_bit(old(self).0, IE_BIT, v),
    {
        self.set_bit(IE_BIT, v);
    }

    /// Updates Z, N, C and V from an arithmetic result computed 32 bits
    /// wide: Z and N from its low 16 bits, C when it exceeds 0xFFFF, V by
    /// the signed-overflow rule for an addition (or a subtraction when
    /// `is_sub`) of `a` and `b`.
    pub fn update_arithmetic(&mut self, result: u32, a: u16, b: u16, is_sub: bool)
        ensures
            final(self).0 == arith_flags(
                old(self).0,
                result as u16,
                result > 0xFFFF,
                signed_overflow(a, b, result as u16, is_sub),
            ),
    {
        let r16 = result as u16;
        self.set_zero(r16 == 0);
        let neg = r16 & 0x8000 != 0;
        assert(neg == sign(r16)) by (bit_vector)
            requires neg == (r16 & 0x8000 != 0);
        self.set_negative(neg);
        self.set_carry(result > 0xFFFF);
        let ov = if is_sub {
            (a ^ b) & 0x8000 != 0 && (a ^ r16) & 0x8000 != 0
        } else {
            (a ^ r16) & 0x8000 != 0 && (b ^ r16) & 0x8000 != 0
        };
        assert(ov == signed_overflow(a, b, r16, is_sub)) by (bit_vector)
            requires
                is_sub ==> ov == ((a ^ b) & 0x8000 != 0 && (a ^ r16) & 0x8000 != 0),
                !is_sub ==> ov == ((a ^ r16) & 0x8000 != 0 && (b ^ r16) & 0x8000 != 0),
        ;
        self.set_overflow(ov);
    }

    /// Updates Z and N from a logical result and clears C; V is kept.
    pub fn update_logical(&mut self, result: u16)
        ensures
            final(self).0 == logic_flags(old(self).0, result),
    {
        self.set_zero(result == 0);
        let neg = result & 0x8000 != 0;
        assert(neg == sign(result)) by (bit_vector)
            requires neg == (result & 0x8000 != 0);
        self.set_negative(neg);
        self.set_carry(false);
    }

    /// Updates Z and N from a shift or rotate result and C from the bit
    /// shifted out; V is kept.
    pub(crate) fn update_shift(&mut self, result: u16, carry: bool)
        ensures
            final(self).0 == shift_flags(old(self).0, result, carry),
    {
        self.set_zero(result == 0);
        let neg = result & 0x8000 != 0;
        assert(neg == sign(result)) by (bit_vector)
            requires neg == (result & 0x8000 != 0);
        self.set_negative(neg);
        self.set_carry(carry);
    }

    /// The text `[Z:z C:c N:n V:v IE:i]` with each flag as 0 or 1.
    pub fn to_text(&self) -> (s: String)
        ensures
            s@ == flags_text(self.0),
    {
        let mut s = String::new();
        s.append("[Z:");
        push_dec(&mut s, self.zero() as u64);
        s.append(" C:");
        push_dec(&mut s, self.carry() as u64);
        s.append(" N:");
        push_dec(&mut s, self.negative() as u64);
        s.append(" V:");
        push_dec(&mut s, self.overflow() as u64);
        s.append(" IE:");
        push_dec(&mut s, self.int_enable() as u64);
        s.append("]");
        s
    }
}

} // verus!

//! Rendering numbers as text: upper-case hexadecimal with a fixed number of
//! digits, and plain decimal.

use vstd::prelude::*;

verus! {

/// `String::push` appends one character to the end of the string.
pub assume_specification[ String::push ](s: &mut String, ch: char)
    ensures
        final(s)@ == old(s)@.push(ch),
;

/// A result with its error message taken by its view.
pub open spec fn err_view<T>(r: Result<T, String>) -> Result<T, Seq<char>> {
    match r {
        Ok(v) => Ok(v),
        Err(e) => Err(e@),
    }
}

/// `x + k` wrapped to 16 bits.
pub open spec fn add16(x: u16, k: int) -> u16 {
    ((x + k) % 65536) as u16
}

/// The upper-case hexadecimal digit for `d` (0 to 15).
pub open spec fn hex_digit(d: nat) -> char {
    if d < 10 {
        (48 + d) as char
    } else {
        (55 + d) as char
    }
}

/// The decimal digit for `d` (0 to 9).
pub open spec fn dec_digit(d: nat) -> char {
    (48 + d) as char
}

/// The last `width` hexadecimal digits of `v`, most significant first
/// (so `hex(v, 4)` is what `{:04X}` prints for a `u16`).
pub open spec fn hex(v: nat, width: nat) -> Seq<char>
    decreases width,
{
    if width == 0 {
        Seq::empty()
    } else {
        hex(v / 16, (width - 1) as nat).push(hex_digit(v % 16))
    }
}

/// The decimal representation of `n`, without leading zeros.
pub open spec fn dec(n: nat) -> Seq<char>
    decreases n,
{
    if n < 10 {
        seq![dec_digit(n)]
    } else {
        dec(n / 10).push(dec_digit(n % 10))
    }
}

/// The text of a boolean as `{}` prints it.
pub open spec fn bool_text(b: bool) -> Seq<char> {
    if b {
        "true"@
    } else {
        "false"@
    }
}

/// `s` right-aligned in a field of `width` characters (as `{:>width}` does).
pub open spec fn pad_left(s: Seq<char>, width: nat) -> Seq<char> {
    if s.len() >= width {
        s
    } else {
        Seq::new((width - s.len()) as nat, |i: int| ' ') + s
    }
}

fn hex_char(d: u32) -> (c: char)
    requires
        d < 16,
    ensures
        c == hex_digit(d as nat),
{
    if d < 10 {
        ((d + 48) as u8) as char
    } else {
        ((d + 55) as u8) as char
    }
}

/// Appends the last `width` hexadecimal digits of `v`.
pub(crate) fn push_hex(s: &mut String, v: u32, width: u32)
    ensures
        final(s)@ == old(s)@ + hex(v as nat, width as nat),
    decreases width,
{
    if width > 0 {
        push_hex(s, v / 16, width - 1);
        s.push(hex_char(v % 16));
    }
    proof {
        assert(final(s)@ =~= old(s)@ + hex(v as nat, width as nat));
    }
}

/// Appends the decimal representation of `n`.
pub(crate) fn push_dec(s: &mut String, n: u64)
    ensures
        final(s)@ == old(s)@ + dec(n as nat),
    decreases n,
{
    if n >= 10 {
        push_dec(s, n / 10);
    }
    let d = (n % 10) as u32;
    s.push(((d + 48) as u8) as char);
    proof {
        assert(final(s)@ =~= old(s)@ + dec(n as nat));
    }
}

/// Appends the decimal representation of `n` right-aligned in `width` columns.
pub(crate) fn push_dec_padded(s: &mut String, n: u64, width: usize)
    ensures
        final(s)@ == old(s)@ + pad_left(dec(n as nat), width as nat),
{
    let mut t = String::new();
    push_dec(&mut t, n);
    let len = t.as_str().unicode_len();
    let ghost start = s@;
    let mut k = len;
    while k < width
        invariant
            len == dec(n as nat).len(),
            len <= k,
            k <= width || k == len,
            s@ == start + Seq::new((k - len) as nat, |i: int| ' '),
        decreases width - k,
    {
        s.push(' ');
        k = k + 1;
        assert(s@ =~= start + Seq::new((k - len) as nat, |i: int| ' '));
    }
    s.append(t.as_str());
    assert(s@ =~= start + pad_left(dec(n as nat), width as nat));
}

/// Appends `true` or `false`.
pub(crate) fn push_bool(s: &mut String, b: bool)
    ensures
        final(s)@ == old(s)@ + bool_text(b),
{
    if b {
        s.append("true");
    } else {
        s.append("false");
    }
}

/// Adding to a 16-bit address in two steps is adding the sum.
pub proof fn lemma_add16_add16(o: u16, a: int, b: int)
    requires
        a >= 0,
        b >= 0,
    ensures
        add16(add16(o, a), b) == add16(o, a + b),
{
    let x = o + a;
    vstd::arithmetic::div_mod::lemma_add_mod_noop(x, b, 65536);
    vstd::arithmetic::div_mod::lemma_add_mod_noop_right(x % 65536, b, 65536);
    assert(add16(o, a) as int == x % 65536);
}

} // verus!

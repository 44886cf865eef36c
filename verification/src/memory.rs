//! 64 KB flat byte-addressable memory; 16-bit words are little-endian.

use vstd::prelude::*;
use crate::text::{push_hex, hex};

verus! {

/// Number of bytes in the address space.
pub const MEM_SIZE: usize = 65536;

/// The 16-bit little-endian word at `addr`: the low byte at `addr`, the high
/// byte at `addr + 1` (wrapping from 0xFFFF to 0x0000).
pub open spec fn word_at(m: Seq<u8>, addr: u16) -> u16 {
    (m[addr as int] as int + 256 * m[(addr as int + 1) % 65536] as int) as u16
}

/// `m` after storing `val` little-endian at `addr`.
pub open spec fn store_word(m: Seq<u8>, addr: u16, val: u16) -> Seq<u8> {
    m.update(addr as int, (val % 256) as u8).update((addr as int + 1) % 65536, (val / 256) as u8)
}

/// How many bytes of a blob of length `n` fit from `start` to the end of memory.
pub open spec fn load_count(start: u16, n: nat) -> nat {
    if n < 65536 - start {
        n
    } else {
        (65536 - start) as nat
    }
}

/// `m` after copying `bytes` to `start`, cut off at the end of memory.
pub open spec fn load_bytes(m: Seq<u8>, start: u16, bytes: Seq<u8>) -> Seq<u8> {
    Seq::new(
        m.len(),
        |i: int|
            if start <= i < start + load_count(start, bytes.len()) {
                bytes[i - start]
            } else {
                m[i]
            },
    )
}

/// One cell of a hex-dump row: the byte as two hex digits and a space, or
/// three spaces past the end of the range.
pub open spec fn dump_cell(m: Seq<u8>, addr: u16, col: nat, present: bool) -> Seq<char> {
    if present {
        hex(m[(addr + col) % 65536] as nat, 2) + " "@
    } else {
        "   "@
    }
}

/// The first `ncols` cells of the hex-dump row starting at offset `row`.
pub open spec fn dump_cells(m: Seq<u8>, addr: u16, row: nat, len: nat, ncols: nat) -> Seq<char>
    decreases ncols,
{
    if ncols == 0 {
        Seq::empty()
    } else {
        dump_cells(m, addr, row, len, (ncols - 1) as nat) + dump_cell(
            m,
            addr,
            (ncols - 1) as nat,
            row + ncols - 1 < len,
        )
    }
}

/// The hex-dump row for offset `row` of the range starting at `start`.
pub open spec fn dump_row(m: Seq<u8>, start: u16, len: nat, row: nat) -> Seq<char> {
    let addr = ((start + row) % 65536) as u16;
    "  "@ + hex(addr as nat, 4) + ": "@ + dump_cells(m, addr, row, len, 16) + "\n"@
}

/// The first `nrows` rows of the hex dump of `len` bytes from `start`.
pub open spec fn dump_text(m: Seq<u8>, start: u16, len: nat, nrows: nat) -> Seq<char>
    decreases nrows,
{
    if nrows == 0 {
        Seq::empty()
    } else {
        dump_text(m, start, len, (nrows - 1) as nat) + dump_row(m, start, len, 16 * (nrows - 1) as nat)
    }
}

/// A word read back from the address it was stored at is the stored value,
/// and storing a word leaves every word that shares no byte with it unchanged.
pub proof fn law_word_read_after_write(m: Seq<u8>, addr: u16, val: u16, other: u16)
    requires
        m.len() == MEM_SIZE,
    ensures
        word_at(store_word(m, addr, val), addr) == val,
        store_word(m, addr, val).len() == MEM_SIZE,
        other != addr && other as int != (addr as int + 1) % 65536 && (other as int + 1) % 65536
            != addr as int ==> word_at(store_word(m, addr, val), other) == word_at(m, other),
{
}

/// A byte read back from the address it was stored at is the stored byte;
/// every other byte is unchanged.
pub proof fn law_byte_read_after_write(m: Seq<u8>, addr: u16, val: u8, other: u16)
    requires
        m.len() == MEM_SIZE,
    ensures
        m.update(addr as int, val)[addr as int] == val,
        other != addr ==> m.update(addr as int, val)[other as int] == m[other as int],
{
}

/// 64 KB of byte-addressable memory.
pub struct Memory {
    data: Vec<u8>,
}

impl View for Memory {
    type V = Seq<u8>;

    closed spec fn view(&self) -> Seq<u8> {
        self.data@
    }
}

impl Memory {
    /// Well-formedness: the memory holds exactly 65536 bytes.
    pub open spec fn wf(&self) -> bool {
        self@.len() == MEM_SIZE
    }

    /// A zero-filled memory.
    pub fn new() -> (m: Memory)
        ensures
            m@ == Seq::new(MEM_SIZE as nat, |i: int| 0u8),
            m.wf(),
    {
        let data = vec![0u8; MEM_SIZE];
        let m = Memory { data };
        assert(m@ =~= Seq::new(MEM_SIZE as nat, |i: int| 0u8));
        m
    }

    /// The byte at `addr`.
    pub fn read_byte(&self, addr: u16) -> (b: u8)
        requires
            self.wf(),
        ensures
            b == self@[addr as int],
            self@.len() == MEM_SIZE,
    {
        self.data[addr as usize]
    }

    /// Stores `val` at `addr`.
    pub fn write_byte(&mut self, addr: u16, val: u8)
        requires
            old(self).wf(),
        ensures
            final(self)@ == old(self)@.update(addr as int, val),
            final(self)@.len() == MEM_SIZE,
    {
        self.data.set(addr as usize, val);
    }

    /// The little-endian word at `addr` (the high byte wraps to 0x0000).
    pub fn read_word(&self, addr: u16) -> (w: u16)
        requires
            self.wf(),
        ensures
            w == word_at(self@, addr),
            self@.len() == MEM_SIZE,
    {
        let lo = self.data[addr as usize] as u16;
        let hi = self.data[addr.wrapping_add(1) as usize] as u16;
        let w = lo | (hi << 8);
        assert(w == lo + 256 * hi) by (bit_vector)
            requires
                lo < 256,
                hi < 256,
                w == lo | (hi << 8),
        ;
        w
    }

    /// Stores `val` little-endian at `addr` (the high byte wraps to 0x0000).
    pub fn write_word(&mut self, addr: u16, val: u16)
        requires
            old(self).wf(),
        ensures
            final(self)@ == store_word(old(self)@, addr, val),
            final(self)@.len() == MEM_SIZE,
    {
        let lo = (val & 0xFF) as u8;
        let hi = (val >> 8) as u8;
        assert(lo == val % 256 && hi == val / 256) by (bit_vector)
            requires
                lo == (val & 0xFF) as u8,
                hi == (val >> 8) as u8,
        ;
        self.data.set(addr as usize, lo);
        self.data.set(addr.wrapping_add(1) as usize, hi);
    }

    /// Copies `bytes` to memory from `start_addr`; bytes past 0xFFFF are dropped.
    pub fn load(&mut self, start_addr: u16, bytes: &[u8])
        requires
            old(self).wf(),
        ensures
            final(self)@ == load_bytes(old(self)@, start_addr, bytes@),
            final(self)@.len() == MEM_SIZE,
    {
        let start = start_addr as usize;
        let n = if bytes.len() < MEM_SIZE - start {
            bytes.len()
        } else {
            MEM_SIZE - start
        };
        assert(n == load_count(start_addr, bytes@.len()));
        let ghost old_data = self.data@;
        let mut i: usize = 0;
        while i < n
            invariant
                n == load_count(start_addr, bytes@.len()),
                start == start_addr,
                i <= n,
                self.data@.len() == MEM_SIZE,
                old_data.len() == MEM_SIZE,
                forall|k: int|
                    0 <= k < MEM_SIZE ==> #[trigger] self.data@[k] == if start <= k < start + i {
                        bytes@[k - start]
                    } else {
                        old_data[k]
                    },
            decreases n - i,
        {
            self.data.set(start + i, bytes[i]);
            i = i + 1;
        }
        assert(self.data@ =~= load_bytes(old_data, start_addr, bytes@));
    }

    /// A hex dump of `len` bytes from `start`: one line per 16 bytes, each
    /// `  AAAA: ` followed by two hex digits and a space per byte (three
    /// spaces past the end of the range) and a newline.
    pub fn hex_dump(&self, start: u16, len: u16) -> (s: String)
        requires
            self.wf(),
        ensures
            s@ == dump_text(self@, start, len as nat, (len as nat + 15) / 16),
    {
        let mut out = String::new();
        let mut row: u32 = 0;
        let ghost mut nrows: nat = 0;
        while row < len as u32
            invariant
                row == 16 * nrows,
                row <= len as u32 + 15,
                nrows <= (len as nat + 15) / 16,
                row < len as u32 ==> nrows < (len as nat + 15) / 16,
                row >= len as u32 ==> nrows == (len as nat + 15) / 16,
                out@ == dump_text(self@, start, len as nat, nrows),
                self.data@.len() == MEM_SIZE,
            decreases len as u32 + 16 - row,
        {
            let addr = start.wrapping_add(row as u16);
            let ghost before = out@;
            out.append("  ");
            push_hex(&mut out, addr as u32, 4);
            out.append(": ");
            let ghost mid = out@;
            let mut col: u32 = 0;
            while col < 16
                invariant
                    col <= 16,
                    row < len as u32,
                    addr == (start + row) % 65536,
                    self.data@.len() == MEM_SIZE,
                    out@ == mid + dump_cells(self@, addr, row as nat, len as nat, col as nat),
                decreases 16 - col,
            {
                if row + col < len as u32 {
                    let b = self.data[addr.wrapping_add(col as u16) as usize];
                    assert(addr.wrapping_add(col as u16) == (addr + col) % 65536);
                    push_hex(&mut out, b as u32, 2);
                    out.append(" ");
                } else {
                    out.append("   ");
                }
                col = col + 1;
                assert(out@ =~= mid + dump_cells(self@, addr, row as nat, len as nat, col as nat));
            }
            out.append("\n");
            proof {
                assert(out@ =~= before + dump_row(self@, start, len as nat, row as nat));
                nrows = nrows + 1;
            }
            row = row + 16;
        }
        out
    }
}

impl Default for Memory {
    fn default() -> (m: Memory)
        ensures
            m@ == Seq::new(MEM_SIZE as nat, |i: int| 0u8),
    {
        Memory::new()
    }
}

} // verus!

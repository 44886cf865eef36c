//! L1 data cache: direct-mapped, write-through, no write-allocate, 16 lines
//! of one 16-bit word each.
//!
//! A byte address maps to line `(addr / 2) % 16` with tag `(addr / 2) / 16`.
//! A read that hits returns the cached word; a read that misses fetches the
//! word from memory and installs it, counting a cold miss when the line was
//! empty and a conflict miss when it held another block. A write always goes
//! to memory and also updates the line when the address is cached.

use vstd::prelude::*;
use crate::memory::{Memory, word_at, store_word};
use crate::text::{push_hex, push_dec_padded, hex, dec, pad_left};

verus! {

/// Number of cache lines.
pub const NUM_LINES: usize = 16;

/// One cache line.
#[derive(Debug, Clone, Copy)]
pub struct CacheLine {
    /// Whether the line holds data.
    pub valid: bool,
    /// Which block of memory the line holds.
    pub tag: u16,
    /// The cached word.
    pub data: u16,
}

impl Default for CacheLine {
    fn default() -> (l: CacheLine)
        ensures
            !l.valid && l.tag == 0 && l.data == 0,
    {
        CacheLine { valid: false, tag: 0, data: 0 }
    }
}

/// Access counts collected by the cache.
#[derive(Debug, Clone, Copy)]
pub struct CacheStats {
    pub reads: u64,
    pub writes: u64,
    pub hits: u64,
    pub misses: u64,
    /// Misses where the line was empty.
    pub cold_misses: u64,
    /// Misses where a valid line held another block.
    pub conflict_misses: u64,
}

impl Default for CacheStats {
    fn default() -> (s: CacheStats)
        ensures
            s == zero_stats(),
    {
        CacheStats { reads: 0, writes: 0, hits: 0, misses: 0, cold_misses: 0, conflict_misses: 0 }
    }
}

/// All counters zero.
pub open spec fn zero_stats() -> CacheStats {
    CacheStats { reads: 0, writes: 0, hits: 0, misses: 0, cold_misses: 0, conflict_misses: 0 }
}

/// Every counter can grow by `n` without passing `u64::MAX`.
pub open spec fn stats_room(s: CacheStats, n: int) -> bool {
    &&& s.reads + n <= u64::MAX
    &&& s.writes + n <= u64::MAX
    &&& s.hits + n <= u64::MAX
    &&& s.misses + n <= u64::MAX
    &&& s.cold_misses + n <= u64::MAX
    &&& s.conflict_misses + n <= u64::MAX
}

/// The read counters (all but `writes`) can grow by `n` without passing
/// `u64::MAX`.
pub open spec fn read_room(s: CacheStats, n: int) -> bool {
    &&& s.reads + n <= u64::MAX
    &&& s.hits + n <= u64::MAX
    &&& s.misses + n <= u64::MAX
    &&& s.cold_misses + n <= u64::MAX
    &&& s.conflict_misses + n <= u64::MAX
}

/// The counters agree: every read is a hit or a miss, every miss is cold or
/// a conflict.
pub open spec fn stats_consistent(s: CacheStats) -> bool {
    &&& s.reads == s.hits + s.misses
    &&& s.misses == s.cold_misses + s.conflict_misses
}

impl CacheStats {
    /// Reads plus writes.
    pub fn total_accesses(&self) -> (n: u64)
        requires
            self.reads + self.writes <= u64::MAX,
        ensures
            n == self.reads + self.writes,
    {
        self.reads + self.writes
    }
}

/// The line a byte address maps to.
pub open spec fn line_index(addr: u16) -> int {
    ((addr / 2) % 16) as int
}

/// The tag of a byte address.
pub open spec fn line_tag(addr: u16) -> u16 {
    ((addr / 2) / 16) as u16
}

/// Whether a read of `addr` hits.
pub open spec fn hits(lines: Seq<CacheLine>, addr: u16) -> bool {
    lines[line_index(addr)].valid && lines[line_index(addr)].tag == line_tag(addr)
}

/// The abstract cache: its lines and its counters.
pub struct CacheModel {
    pub lines: Seq<CacheLine>,
    pub stats: CacheStats,
}

/// The counters after one read: a hit, or a cold or conflict miss.
pub open spec fn stats_after_read(s: CacheStats, hit: bool, was_valid: bool) -> CacheStats {
    CacheStats {
        reads: (s.reads + 1) as u64,
        writes: s.writes,
        hits: if hit { (s.hits + 1) as u64 } else { s.hits },
        misses: if hit { s.misses } else { (s.misses + 1) as u64 },
        cold_misses: if !hit && !was_valid { (s.cold_misses + 1) as u64 } else { s.cold_misses },
        conflict_misses: if !hit && was_valid {
            (s.conflict_misses + 1) as u64
        } else {
            s.conflict_misses
        },
    }
}

/// A read of `addr` through the cache in front of memory `m`: the new cache
/// and the word read.
pub open spec fn cache_read(c: CacheModel, m: Seq<u8>, addr: u16) -> (CacheModel, u16) {
    let i = line_index(addr);
    if hits(c.lines, addr) {
        (CacheModel { lines: c.lines, stats: stats_after_read(c.stats, true, true) }, c.lines[i].data)
    } else {
        let w = word_at(m, addr);
        (
            CacheModel {
                lines: c.lines.update(i, CacheLine { valid: true, tag: line_tag(addr), data: w }),
                stats: stats_after_read(c.stats, false, c.lines[i].valid),
            },
            w,
        )
    }
}

/// The cache after a write of `val` to `addr` (memory is written separately).
pub open spec fn cache_write(c: CacheModel, addr: u16, val: u16) -> CacheModel {
    let i = line_index(addr);
    CacheModel {
        lines: if hits(c.lines, addr) {
            c.lines.update(i, CacheLine { valid: true, tag: c.lines[i].tag, data: val })
        } else {
            c.lines
        },
        stats: CacheStats { writes: (c.stats.writes + 1) as u64, ..c.stats },
    }
}

/// Every valid line has a tag that an address can have and holds the word
/// of memory it stands for.
pub open spec fn coherent(lines: Seq<CacheLine>, m: Seq<u8>) -> bool {
    forall|i: int|
        0 <= i < NUM_LINES && #[trigger] lines[i].valid ==> lines[i].tag < 2048
            && lines[i].data == word_at(m, (2 * (16 * lines[i].tag + i)) as u16)
}

/// A read through the cache keeps the counters consistent.
pub proof fn law_read_keeps_stats_consistent(c: CacheModel, m: Seq<u8>, addr: u16)
    requires
        stats_consistent(c.stats),
        stats_room(c.stats, 1),
        read_room(c.stats, 1),
    ensures
        stats_consistent(cache_read(c, m, addr).0.stats),
        stats_consistent(cache_write(c, addr, 0).stats),
{
}

/// A word-aligned read through a coherent cache returns what memory holds,
/// and leaves the cache coherent.
pub proof fn law_aligned_read_is_memory(c: CacheModel, m: Seq<u8>, addr: u16)
    requires
        c.lines.len() == NUM_LINES,
        m.len() == 65536,
        coherent(c.lines, m),
        addr % 2 == 0,
    ensures
        cache_read(c, m, addr).1 == word_at(m, addr),
        coherent(cache_read(c, m, addr).0.lines, m),
{
    let i = line_index(addr);
    assert(2 * (16 * line_tag(addr) + i) == addr);
    if hits(c.lines, addr) {
        assert(c.lines[i].valid);
    }
}

/// A word-aligned write through a coherent cache (to the cache and to memory)
/// leaves it coherent: reads after writes never see stale data.
pub proof fn law_aligned_write_keeps_coherence(c: CacheModel, m: Seq<u8>, addr: u16, val: u16)
    requires
        c.lines.len() == NUM_LINES,
        m.len() == 65536,
        coherent(c.lines, m),
        addr % 2 == 0,
    ensures
        coherent(cache_write(c, addr, val).lines, store_word(m, addr, val)),
{
    let i = line_index(addr);
    let nl = cache_write(c, addr, val).lines;
    let nm = store_word(m, addr, val);
    assert(2 * (16 * line_tag(addr) + i) == addr);
    assert forall|j: int| 0 <= j < NUM_LINES && #[trigger] nl[j].valid implies nl[j].data
        == word_at(nm, (2 * (16 * nl[j].tag + j)) as u16) by {
        let a = (2 * (16 * nl[j].tag + j)) as u16;
        assert(c.lines[j].valid);
        assert(nl[j].tag == c.lines[j].tag);
        assert(0 <= 2 * (16 * c.lines[j].tag + j) < 65536);
        if a == addr {
        } else {
            assert(a % 2 == 0);
            assert(a as int != (addr as int + 1) % 65536);
            assert((a as int + 1) % 65536 != addr as int);
            crate::memory::law_word_read_after_write(m, addr, val, a);
        }
    }
}

/// The text of one cache line in a dump.
pub open spec fn line_text(i: nat, l: CacheLine) -> Seq<char> {
    if l.valid {
        "  "@ + pad_left(dec(i), 4) + "    yes  0x"@ + hex(l.tag as nat, 4) + "  0x"@ + hex(
            l.data as nat,
            4,
        ) + "\n"@
    } else {
        "  "@ + pad_left(dec(i), 4) + "     no  ──────  ──────\n"@
    }
}

/// The dump text of the first `n` lines.
pub open spec fn lines_text(lines: Seq<CacheLine>, n: nat) -> Seq<char>
    decreases n,
{
    if n == 0 {
        Seq::empty()
    } else {
        lines_text(lines, (n - 1) as nat) + line_text((n - 1) as nat, lines[n - 1])
    }
}

/// Direct-mapped write-through L1 cache.
pub struct Cache {
    lines: [CacheLine; NUM_LINES],
    pub stats: CacheStats,
}

impl View for Cache {
    type V = CacheModel;

    closed spec fn view(&self) -> CacheModel {
        CacheModel { lines: self.lines@, stats: self.stats }
    }
}

impl Cache {
    /// A cache always has `NUM_LINES` lines, so the laws over its model
    /// (such as `law_aligned_read_is_memory`) apply to every cache.
    pub proof fn lemma_line_count(&self)
        ensures
            self@.lines.len() == NUM_LINES,
    {
    }

    /// An empty cache with all counters zero.
    pub fn new() -> (c: Cache)
        ensures
            c@.lines.len() == NUM_LINES,
            c@.lines == Seq::new(NUM_LINES as nat, |i: int| CacheLine { valid: false, tag: 0, data: 0 }),
            c@.stats == zero_stats(),
    {
        let c = Cache {
            lines: [CacheLine { valid: false, tag: 0, data: 0 }; NUM_LINES],
            stats: CacheStats::default(),
        };
        assert(c@.lines =~= Seq::new(NUM_LINES as nat, |i: int| CacheLine { valid: false, tag: 0, data: 0 }));
        c
    }

    fn decompose(addr: u16) -> (r: (usize, u16))
        ensures
            r.0 == line_index(addr),
            r.1 == line_tag(addr),
            r.0 < NUM_LINES,
    {
        let word_addr = addr / 2;
        let line_index = (word_addr as usize) % NUM_LINES;
        let tag = word_addr / NUM_LINES as u16;
        (line_index, tag)
    }

    /// Reads a word through the cache: a hit returns the cached word, a miss
    /// fetches it from `mem` and installs it. Counters are updated.
    pub fn read_word(&mut self, addr: u16, mem: &Memory) -> (w: u16)
        requires
            read_room(old(self)@.stats, 1),
            mem.wf(),
        ensures
            (final(self)@, w) == cache_read(old(self)@, mem@, addr),
    {
        self.stats.reads += 1;
        let (idx, tag) = Self::decompose(addr);
        let line = self.lines[idx];
        if line.valid && line.tag == tag {
            self.stats.hits += 1;
            line.data
        } else {
            if !line.valid {
                self.stats.cold_misses += 1;
            } else {
                self.stats.conflict_misses += 1;
            }
            self.stats.misses += 1;
            let word = mem.read_word(addr);
            self.lines[idx] = CacheLine { valid: true, tag, data: word };
            proof {
                assert(self@.lines =~= old(self)@.lines.update(idx as int, CacheLine { valid: true, tag, data: word }));
            }
            word
        }
    }

    /// Writes a word: always to memory, and to the cache line when the
    /// address is cached (no line is installed on a write).
    pub fn write_word(&mut self, addr: u16, val: u16, mem: &mut Memory)
        requires
            old(self)@.stats.writes < u64::MAX,
            old(mem).wf(),
        ensures
            final(self)@ == cache_write(old(self)@, addr, val),
            final(mem)@ == store_word(old(mem)@, addr, val),
            final(mem).wf(),
    {
        self.stats.writes += 1;
        mem.write_word(addr, val);
        let (idx, tag) = Self::decompose(addr);
        let line = self.lines[idx];
        if line.valid && line.tag == tag {
            self.lines[idx] = CacheLine { valid: true, tag: line.tag, data: val };
            proof {
                assert(self@.lines =~= cache_write(old(self)@, addr, val).lines);
            }
        }
    }

    /// Invalidates the line holding `addr`, if it is cached.
    pub fn invalidate(&mut self, addr: u16)
        ensures
            final(self)@.stats == old(self)@.stats,
            final(self)@.lines == if hits(old(self)@.lines, addr) {
                old(self)@.lines.update(
                    line_index(addr),
                    CacheLine { valid: false, ..old(self)@.lines[line_index(addr)] },
                )
            } else {
                old(self)@.lines
            },
    {
        let (idx, tag) = Self::decompose(addr);
        let line = self.lines[idx];
        if line.valid && line.tag == tag {
            self.lines[idx] = CacheLine { valid: false, tag: line.tag, data: line.data };
            proof {
                assert(self@.lines =~= old(self)@.lines.update(
                    line_index(addr),
                    CacheLine { valid: false, ..old(self)@.lines[line_index(addr)] },
                ));
            }
        }
    }

    /// Invalidates every line; tags, data and counters are kept.
    pub fn flush(&mut self)
        ensures
            final(self)@.stats == old(self)@.stats,
            final(self)@.lines == Seq::new(
                NUM_LINES as nat,
                |i: int| CacheLine { valid: false, ..old(self)@.lines[i] },
            ),
    {
        let mut i: usize = 0;
        while i < NUM_LINES
            invariant
                i <= NUM_LINES,
                self.stats == old(self).stats,
                forall|k: int|
                    0 <= k < NUM_LINES ==> #[trigger] self.lines@[k] == if k < i {
                        CacheLine { valid: false, ..old(self).lines@[k] }
                    } else {
                        old(self).lines@[k]
                    },
            decreases NUM_LINES - i,
        {
            let line = self.lines[i];
            self.lines[i] = CacheLine { valid: false, tag: line.tag, data: line.data };
            i = i + 1;
        }
        assert(self@.lines =~= Seq::new(
            NUM_LINES as nat,
            |i: int| CacheLine { valid: false, ..old(self)@.lines[i] },
        ));
    }

    /// Line `i` of the cache.
    pub fn get_line(&self, i: usize) -> (l: CacheLine)
        requires
            i < NUM_LINES,
        ensures
            l == self@.lines[i as int],
    {
        self.lines[i]
    }

    /// A table of all lines: a header, then per line its index, whether it is
    /// valid and, if so, its tag and data in hex.
    pub fn dump(&self) -> (s: String)
        ensures
            s@ == "Cache state:\n"@ + "  Line  Valid  Tag     Data\n"@ + "  ────  ─────  ──────  ──────\n"@
                + lines_text(self@.lines, NUM_LINES as nat),
    {
        let mut out = String::new();
        out.append("Cache state:\n");
        out.append("  Line  Valid  Tag     Data\n");
        out.append("  ────  ─────  ──────  ──────\n");
        let ghost head = out@;
        let mut i: usize = 0;
        while i < NUM_LINES
            invariant
                i <= NUM_LINES,
                out@ == head + lines_text(self@.lines, i as nat),
            decreases NUM_LINES - i,
        {
            let line = self.lines[i];
            let ghost before = out@;
            out.append("  ");
            push_dec_padded(&mut out, i as u64, 4);
            if line.valid {
                out.append("    yes  0x");
                push_hex(&mut out, line.tag as u32, 4);
                out.append("  0x");
                push_hex(&mut out, line.data as u32, 4);
                out.append("\n");
            } else {
                out.append("     no  ──────  ──────\n");
            }
            i = i + 1;
            assert(out@ =~= head + lines_text(self@.lines, i as nat));
        }
        out
    }
}

impl Default for Cache {
    fn default() -> (c: Cache)
        ensures
            c@.lines == Seq::new(NUM_LINES as nat, |i: int| CacheLine { valid: false, tag: 0, data: 0 }),
            c@.stats == zero_stats(),
    {
        Cache::new()
    }
}

/// A write never installs a line (no write-allocate): every line other than
/// the one that already holds the written address keeps its valid bit, tag
/// and data; that one keeps its tag and now holds the written value. Only
/// the write counter moves, by one.
pub proof fn law_write_never_allocates(c: CacheModel, addr: u16, val: u16, j: int)
    requires
        c.lines.len() == NUM_LINES,
        0 <= j < NUM_LINES,
        c.stats.writes < u64::MAX,
    ensures
        ({
            let n = cache_write(c, addr, val);
            let holds = j == (addr / 2) % 16 && c.lines[j].valid && c.lines[j].tag == (addr / 2) / 16;
            &&& n.lines.len() == NUM_LINES
            &&& !holds ==> n.lines[j] == c.lines[j]
            &&& holds ==> (n.lines[j].valid && n.lines[j].tag == c.lines[j].tag && n.lines[j].data == val)
            &&& n.stats.writes == c.stats.writes + 1
            &&& n.stats.reads == c.stats.reads && n.stats.hits == c.stats.hits
            &&& n.stats.misses == c.stats.misses && n.stats.cold_misses == c.stats.cold_misses
            &&& n.stats.conflict_misses == c.stats.conflict_misses
        }),
{
}

/// A read of `addr` looks at line `(addr / 2) % 16`. If that line is valid
/// with tag `(addr / 2) / 16` it hits: the cached word is returned and
/// nothing but the hit count changes. Otherwise it misses: the word is
/// read from memory (low byte at `addr`, high byte after it), installed in
/// that line with that tag, and counted as a cold miss if the line was
/// empty or a conflict miss if it held another address. Every read counts
/// one read.
pub proof fn law_read_hit_or_miss(c: CacheModel, m: Seq<u8>, addr: u16)
    requires
        c.lines.len() == NUM_LINES,
        m.len() == 65536,
        read_room(c.stats, 1),
    ensures
        ({
            let (n, w) = cache_read(c, m, addr);
            let i = ((addr / 2) % 16) as int;
            let hit = c.lines[i].valid && c.lines[i].tag == (addr / 2) / 16;
            &&& n.stats.reads == c.stats.reads + 1
            &&& n.stats.writes == c.stats.writes
            &&& hit ==> {
                &&& w == c.lines[i].data
                &&& n.lines == c.lines
                &&& n.stats.hits == c.stats.hits + 1
                &&& n.stats.misses == c.stats.misses
                &&& n.stats.cold_misses == c.stats.cold_misses
                &&& n.stats.conflict_misses == c.stats.conflict_misses
            }
            &&& !hit ==> {
                &&& w as int == m[addr as int] + 256 * m[(addr + 1) % 65536]
                &&& n.lines[i] == CacheLine { valid: true, tag: ((addr / 2) / 16) as u16, data: w }
                &&& forall|j: int| 0 <= j < NUM_LINES && j != i ==> n.lines[j] == c.lines[j]
                &&& n.stats.hits == c.stats.hits
                &&& n.stats.misses == c.stats.misses + 1
                &&& n.stats.cold_misses == c.stats.cold_misses + (if c.lines[i].valid { 0int } else { 1 })
                &&& n.stats.conflict_misses == c.stats.conflict_misses + (if c.lines[i].valid { 1int } else { 0 })
            }
        }),
{
    let lo = m[addr as int];
    let hi = m[(addr + 1) % 65536];
    assert(lo + 256 * hi < 65536);
}

} // verus!

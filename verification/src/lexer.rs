//! Splitting assembly source into numbered lines of tokens.
//!
//! A line is split at `\n`; everything from the first `;` on is a comment;
//! the rest is split into words at white space (the Unicode White_Space
//! characters, as `char::is_whitespace` defines them); trailing commas are
//! removed from each word and the word is upper-cased. Lines without words
//! are dropped; the others keep their 1-based line number.

use vstd::prelude::*;

verus! {

/// `str::to_uppercase`: the upper-case mapping of a string as Unicode
/// defines it.
pub uninterp spec fn uppercase(s: Seq<char>) -> Seq<char>;

/// Calls `str::to_uppercase`; its result is named `uppercase` of the input.
#[verifier::external_body]
fn to_uppercase_str(s: &str) -> (r: String)
    ensures
        r@ == uppercase(s@),
{
    s.to_uppercase()
}

/// The Unicode White_Space characters: tab, line feed, vertical tab, form
/// feed, carriage return, space, U+0085, U+00A0, U+1680, U+2000 to U+200A,
/// U+2028, U+2029, U+202F, U+205F and U+3000.
pub open spec fn is_white_space(c: char) -> bool {
    let u = c as u32;
    (0x09 <= u <= 0x0D) || u == 0x20 || u == 0x85 || u == 0xA0 || u == 0x1680 || (0x2000 <= u
        <= 0x200A) || u == 0x2028 || u == 0x2029 || u == 0x202F || u == 0x205F || u == 0x3000
}

/// Splitting at `\\n`, scanning from position `i` with `cur` the part of
/// the current line seen so far.
pub open spec fn lines_from(s: Seq<char>, i: int, cur: Seq<char>) -> Seq<Seq<char>>
    decreases s.len() - i,
{
    if i >= s.len() {
        seq![cur]
    } else if s[i] == '\n' {
        seq![cur] + lines_from(s, i + 1, Seq::empty())
    } else {
        lines_from(s, i + 1, cur.push(s[i]))
    }
}

/// The lines of `s`: the pieces between line feeds.
pub open spec fn split_lines(s: Seq<char>) -> Seq<Seq<char>> {
    lines_from(s, 0, Seq::empty())
}

/// Splitting into words, scanning from position `i` with `cur` the part of
/// the current word seen so far.
pub open spec fn words_from(s: Seq<char>, i: int, cur: Seq<char>) -> Seq<Seq<char>>
    decreases s.len() - i,
{
    if i >= s.len() {
        if cur.len() > 0 {
            seq![cur]
        } else {
            Seq::empty()
        }
    } else if is_white_space(s[i]) {
        (if cur.len() > 0 {
            seq![cur]
        } else {
            Seq::empty()
        }) + words_from(s, i + 1, Seq::empty())
    } else {
        words_from(s, i + 1, cur.push(s[i]))
    }
}

/// The words of `s`: its maximal runs of characters that are not white space.
pub open spec fn words(s: Seq<char>) -> Seq<Seq<char>> {
    words_from(s, 0, Seq::empty())
}

/// The position of the first `;` at or after `i`, or the length of `s`.
pub open spec fn semicolon_from(s: Seq<char>, i: int) -> int
    decreases s.len() - i,
{
    if i >= s.len() {
        s.len() as int
    } else if s[i] == ';' {
        i
    } else {
        semicolon_from(s, i + 1)
    }
}

/// The part of a line before its comment.
pub open spec fn code_part(line: Seq<char>) -> Seq<char> {
    line.take(semicolon_from(line, 0))
}

/// `t` without its trailing copies of `c`.
pub open spec fn trim_end(t: Seq<char>, c: char) -> Seq<char>
    decreases t.len(),
{
    if t.len() > 0 && t.last() == c {
        trim_end(t.drop_last(), c)
    } else {
        t
    }
}

/// Whether every character of `t` is ASCII.
pub open spec fn all_ascii(t: Seq<char>) -> bool {
    forall|i: int| 0 <= i < t.len() ==> (t[i] as u32) < 128
}

/// The ASCII upper-case letter for an ASCII lower-case one; any other
/// character unchanged.
pub open spec fn ascii_upper(c: char) -> char {
    if 'a' <= c && c <= 'z' {
        ((c as u32) - 32) as char
    } else {
        c
    }
}

/// Upper-casing a word: for ASCII the lower-case letters become upper-case,
/// otherwise the Unicode mapping of `str::to_uppercase`.
pub open spec fn upper(t: Seq<char>) -> Seq<char> {
    if all_ascii(t) {
        t.map_values(|c: char| ascii_upper(c))
    } else {
        uppercase(t)
    }
}

/// The token a word becomes: trailing commas removed, upper-cased.
pub open spec fn token_of(w: Seq<char>) -> Seq<char> {
    upper(trim_end(w, ','))
}

/// The tokens of a line.
pub open spec fn line_tokens(line: Seq<char>) -> Seq<Seq<char>> {
    words(code_part(line)).map_values(|w: Seq<char>| token_of(w))
}

/// The numbered token lines of the first `n` lines of `ls`, skipping lines
/// without tokens.
pub open spec fn numbered(ls: Seq<Seq<char>>, n: nat) -> Seq<(usize, Seq<Seq<char>>)>
    decreases n,
{
    if n == 0 {
        Seq::empty()
    } else {
        let rest = numbered(ls, (n - 1) as nat);
        let t = line_tokens(ls[n - 1]);
        if t.len() > 0 {
            rest.push((n as usize, t))
        } else {
            rest
        }
    }
}

/// The numbered token lines of a source text.
pub open spec fn tokenize_spec(src: Seq<char>) -> Seq<(usize, Seq<Seq<char>>)> {
    numbered(split_lines(src), split_lines(src).len())
}

/// A token in the form the tokenizer gives ASCII words: ASCII, upper-case
/// and without a trailing comma.
pub open spec fn plain_token(t: Seq<char>) -> bool {
    &&& all_ascii(t)
    &&& upper(t) == t
    &&& trim_end(t, ',') == t
}

/// `trim_end(t, c)` is a prefix of `t` that does not end with `c`.
proof fn lemma_trim_end_prefix(t: Seq<char>, c: char)
    ensures
        trim_end(t, c).len() <= t.len(),
        forall|i: int| 0 <= i < trim_end(t, c).len() ==> trim_end(t, c)[i] == t[i],
        trim_end(t, c).len() > 0 ==> trim_end(t, c).last() != c,
    decreases t.len(),
{
    if t.len() > 0 && t.last() == c {
        lemma_trim_end_prefix(t.drop_last(), c);
        assert forall|i: int| 0 <= i < trim_end(t, c).len() implies trim_end(t, c)[i] == t[i] by {
            assert(t.drop_last()[i] == t[i]);
        }
    }
}

/// The first `;` at or after `i` is within the text.
proof fn lemma_semicolon_bound(s: Seq<char>, i: int)
    requires
        0 <= i,
    ensures
        0 <= semicolon_from(s, i) <= s.len(),
    decreases s.len() - i,
{
    if i < s.len() && s[i] != ';' {
        lemma_semicolon_bound(s, i + 1);
    }
}

/// The token of an ASCII word is plain.
proof fn lemma_token_plain(w: Seq<char>)
    requires
        all_ascii(w),
    ensures
        plain_token(token_of(w)),
{
    let s = trim_end(w, ',');
    lemma_trim_end_prefix(w, ',');
    assert forall|i: int| 0 <= i < s.len() implies (s[i] as u32) < 128 by {
        assert(s[i] == w[i]);
    }
    let u = s.map_values(|c: char| ascii_upper(c));
    assert(token_of(w) == u);
    assert forall|i: int| 0 <= i < u.len() implies (u[i] as u32) < 128
        && ascii_upper(u[i]) == u[i] by {
        assert((s[i] as u32) < 128);
    }
    assert(all_ascii(u));
    assert(upper(u) =~= u);
    if u.len() > 0 {
        assert(u.last() == ascii_upper(s.last()));
        assert(u.last() != ',');
    }
}

/// The words of an ASCII text (scanned from `i`, with `cur` pending) are ASCII.
proof fn lemma_words_ascii(s: Seq<char>, i: int, cur: Seq<char>)
    requires
        all_ascii(s),
        all_ascii(cur),
        0 <= i,
    ensures
        forall|k: int| 0 <= k < words_from(s, i, cur).len() ==> all_ascii(#[trigger] words_from(s, i, cur)[k]),
    decreases s.len() - i,
{
    if i >= s.len() {
        if cur.len() > 0 {
            assert(words_from(s, i, cur) == seq![cur]);
            assert(seq![cur][0] == cur);
        }
    } else if is_white_space(s[i]) {
        lemma_words_ascii(s, i + 1, Seq::empty());
        let head: Seq<Seq<char>> = if cur.len() > 0 {
            seq![cur]
        } else {
            Seq::empty()
        };
        let rest = words_from(s, i + 1, Seq::empty());
        assert(words_from(s, i, cur) == head + rest);
        assert forall|k: int| 0 <= k < (head + rest).len() implies all_ascii(#[trigger] (head + rest)[k]) by {
            if k >= head.len() {
                assert((head + rest)[k] == rest[k - head.len()]);
            }
        }
    } else {
        assert forall|j: int| 0 <= j < cur.push(s[i]).len() implies (cur.push(s[i])[j] as u32) < 128 by {
            if j < cur.len() {
                assert(cur.push(s[i])[j] == cur[j]);
            }
        }
        lemma_words_ascii(s, i + 1, cur.push(s[i]));
        assert(words_from(s, i, cur) == words_from(s, i + 1, cur.push(s[i])));
    }
}

/// The lines of an ASCII text (scanned from `i`, with `cur` pending) are ASCII.
proof fn lemma_lines_ascii(s: Seq<char>, i: int, cur: Seq<char>)
    requires
        all_ascii(s),
        all_ascii(cur),
        0 <= i,
    ensures
        forall|k: int| 0 <= k < lines_from(s, i, cur).len() ==> all_ascii(#[trigger] lines_from(s, i, cur)[k]),
    decreases s.len() - i,
{
    if i >= s.len() {
        assert(lines_from(s, i, cur) == seq![cur]);
        assert(seq![cur][0] == cur);
    } else if s[i] == '\n' {
        lemma_lines_ascii(s, i + 1, Seq::empty());
        let rest = lines_from(s, i + 1, Seq::empty());
        assert(lines_from(s, i, cur) == seq![cur] + rest);
        assert((seq![cur] + rest)[0] == cur);
        assert forall|k: int| 0 <= k < (seq![cur] + rest).len() implies all_ascii(#[trigger] (seq![cur] + rest)[k]) by {
            if k >= 1 {
                assert((seq![cur] + rest)[k] == rest[k - 1]);
            }
        }
    } else {
        assert forall|j: int| 0 <= j < cur.push(s[i]).len() implies (cur.push(s[i])[j] as u32) < 128 by {
            if j < cur.len() {
                assert(cur.push(s[i])[j] == cur[j]);
            }
        }
        lemma_lines_ascii(s, i + 1, cur.push(s[i]));
        assert(lines_from(s, i, cur) == lines_from(s, i + 1, cur.push(s[i])));
    }
}

/// The tokens of an ASCII line are plain.
proof fn lemma_line_tokens_plain(line: Seq<char>)
    requires
        all_ascii(line),
    ensures
        forall|k: int| 0 <= k < line_tokens(line).len() ==> plain_token(#[trigger] line_tokens(line)[k]),
{
    let code = code_part(line);
    lemma_semicolon_bound(line, 0);
    assert forall|i: int| 0 <= i < code.len() implies (code[i] as u32) < 128 by {
        assert(code[i] == line[i]);
    }
    lemma_words_ascii(code, 0, Seq::empty());
    assert forall|k: int| 0 <= k < line_tokens(line).len() implies plain_token(#[trigger] line_tokens(line)[k]) by {
        lemma_token_plain(words(code)[k]);
    }
}

proof fn lemma_numbered_plain(ls: Seq<Seq<char>>, n: nat)
    requires
        n <= ls.len(),
        forall|m: int| 0 <= m < ls.len() ==> all_ascii(#[trigger] ls[m]),
    ensures
        forall|i: int, k: int|
            0 <= i < numbered(ls, n).len() && 0 <= k < numbered(ls, n)[i].1.len() ==> plain_token(
                #[trigger] numbered(ls, n)[i].1[k],
            ),
    decreases n,
{
    if n > 0 {
        lemma_numbered_plain(ls, (n - 1) as nat);
        lemma_line_tokens_plain(ls[n - 1]);
        let rest = numbered(ls, (n - 1) as nat);
        let t = line_tokens(ls[n - 1]);
        if t.len() > 0 {
            let all = rest.push((n as usize, t));
            assert(numbered(ls, n) == all);
            assert forall|i: int, k: int| 0 <= i < all.len() && 0 <= k < all[i].1.len() implies plain_token(
                #[trigger] all[i].1[k],
            ) by {
                if i < rest.len() {
                    assert(all[i] == rest[i]);
                } else {
                    assert(all[i].1 == t);
                }
            }
        }
    }
}

/// Every token that the tokenizer gives for an ASCII source is plain:
/// ASCII, upper-case, without a trailing comma.
pub proof fn law_ascii_source_gives_plain_tokens(src: Seq<char>)
    requires
        all_ascii(src),
    ensures
        forall|i: int, k: int|
            0 <= i < tokenize_spec(src).len() && 0 <= k < tokenize_spec(src)[i].1.len() ==> plain_token(
                #[trigger] tokenize_spec(src)[i].1[k],
            ),
{
    lemma_lines_ascii(src, 0, Seq::empty());
    lemma_numbered_plain(split_lines(src), split_lines(src).len());
}

/// A line list taken by the views of its tokens.
pub open spec fn lines_view(v: Seq<(usize, Vec<String>)>) -> Seq<(usize, Seq<Seq<char>>)> {
    v.map_values(|l: (usize, Vec<String>)| (l.0, l.1@.map_values(|t: String| t@)))
}

/// The characters of `s`.
pub(crate) fn chars_of(s: &str) -> (v: Vec<char>)
    ensures
        v@ == s@,
{
    let mut v: Vec<char> = Vec::new();
    for c in it: s.chars()
        invariant
            v@ == it.seq().take(it.index() as int),
    {
        v.push(c);
    }
    v
}

/// Whether `c` is a Unicode White_Space character.
pub(crate) fn is_white_space_char(c: char) -> (b: bool)
    ensures
        b == is_white_space(c),
{
    let u = c as u32;
    (0x09 <= u && u <= 0x0D) || u == 0x20 || u == 0x85 || u == 0xA0 || u == 0x1680 || (0x2000 <= u
        && u <= 0x200A) || u == 0x2028 || u == 0x2029 || u == 0x202F || u == 0x205F || u == 0x3000
}

/// The text of `v[from..to]`.
pub(crate) fn text_of(v: &Vec<char>, from: usize, to: usize) -> (s: String)
    requires
        from <= to <= v@.len(),
    ensures
        s@ == v@.subrange(from as int, to as int),
{
    let mut s = String::new();
    let mut i = from;
    while i < to
        invariant
            from <= i <= to,
            to <= v@.len(),
            s@ == v@.subrange(from as int, i as int),
        decreases to - i,
    {
        s.push(v[i]);
        i = i + 1;
        assert(s@ =~= v@.subrange(from as int, i as int));
    }
    s
}

/// The lines of `src` (see `split_lines`).
fn split_lines_exec(src: &Vec<char>) -> (r: Vec<Vec<char>>)
    ensures
        r@.map_values(|l: Vec<char>| l@) == split_lines(src@),
{
    let mut out: Vec<Vec<char>> = Vec::new();
    let mut cur: Vec<char> = Vec::new();
    let mut i: usize = 0;
    while i < src.len()
        invariant
            i <= src@.len(),
            out@.map_values(|l: Vec<char>| l@) + lines_from(src@, i as int, cur@) == split_lines(src@),
        decreases src@.len() - i,
    {
        let ghost before = out@.map_values(|l: Vec<char>| l@);
        let c = src[i];
        if c == '\n' {
            let line = cur;
            cur = Vec::new();
            out.push(line);
            assert(out@.map_values(|l: Vec<char>| l@) =~= before.push(line@));
        } else {
            cur.push(c);
        }
        i = i + 1;
        assert(out@.map_values(|l: Vec<char>| l@) + lines_from(src@, i as int, cur@) =~= split_lines(src@));
    }
    let ghost before = out@.map_values(|l: Vec<char>| l@);
    let last = cur;
    out.push(last);
    assert(out@.map_values(|l: Vec<char>| l@) =~= before.push(last@));
    out
}

/// The position of the first `;` in `line`, or its length.
fn semicolon_index(line: &Vec<char>) -> (k: usize)
    ensures
        k == semicolon_from(line@, 0),
        k <= line@.len(),
{
    let mut i: usize = 0;
    while i < line.len()
        invariant
            i <= line@.len(),
            semicolon_from(line@, i as int) == semicolon_from(line@, 0),
        decreases line@.len() - i,
    {
        if line[i] == ';' {
            return i;
        }
        i = i + 1;
    }
    i
}

/// The upper-cased text of `w[..k]` (see `upper`).
pub(crate) fn upper_prefix(w: &Vec<char>, k: usize) -> (t: String)
    requires
        k <= w@.len(),
    ensures
        t@ == upper(w@.take(k as int)),
{
    let ghost base = w@.take(k as int);
    let mut ascii = true;
    let mut i: usize = 0;
    while i < k
        invariant
            i <= k <= w@.len(),
            base == w@.take(k as int),
            ascii == (forall|j: int| 0 <= j < i ==> (base[j] as u32) < 128),
        decreases k - i,
    {
        assert(base[i as int] == w@[i as int]);
        if (w[i] as u32) >= 128 {
            ascii = false;
        }
        i = i + 1;
    }
    if ascii {
        let mut s = String::new();
        let mut j: usize = 0;
        while j < k
            invariant
                j <= k <= w@.len(),
                base == w@.take(k as int),
                s@ == base.take(j as int).map_values(|c: char| ascii_upper(c)),
            decreases k - j,
        {
            let c = w[j];
            let u = if 'a' <= c && c <= 'z' {
                ((c as u32) - 32) as u8 as char
            } else {
                c
            };
            assert(u == ascii_upper(c));
            s.push(u);
            j = j + 1;
            assert(s@ =~= base.take(j as int).map_values(|c: char| ascii_upper(c)));
        }
        assert(base.take(k as int) =~= base);
        s
    } else {
        let raw = text_of(w, 0, k);
        assert(raw@ =~= base);
        to_uppercase_str(raw.as_str())
    }
}

/// The token a word becomes (see `token_of`).
fn make_token(w: &Vec<char>) -> (t: String)
    ensures
        t@ == token_of(w@),
{
    let k = trimmed_len_of(w, ',');
    upper_prefix(w, k)
}

/// Trailing copies of `c` removed: the length of what stays.
pub(crate) fn trimmed_len_of(w: &Vec<char>, c: char) -> (k: usize)
    ensures
        k <= w@.len(),
        w@.take(k as int) == trim_end(w@, c),
{
    let mut k = w.len();
    assert(w@.take(k as int) =~= w@);
    while k > 0 && w[k - 1] == c
        invariant
            k <= w@.len(),
            trim_end(w@.take(k as int), c) == trim_end(w@, c),
        decreases k,
    {
        assert(w@.take(k as int).drop_last() =~= w@.take(k - 1));
        k = k - 1;
    }
    k
}

/// The tokens of one line (see `line_tokens`).
fn line_tokens_exec(line: &Vec<char>) -> (r: Vec<String>)
    ensures
        r@.map_values(|t: String| t@) == line_tokens(line@),
{
    let end = semicolon_index(line);
    let ghost code = line@.take(end as int);
    let ghost ws = words(code);
    let mut out: Vec<String> = Vec::new();
    let mut cur: Vec<char> = Vec::new();
    let mut i: usize = 0;
    let ghost mut done: Seq<Seq<char>> = Seq::empty();
    while i < end
        invariant
            i <= end <= line@.len(),
            code == line@.take(end as int),
            done + words_from(code, i as int, cur@) == ws,
            out@.map_values(|t: String| t@) == done.map_values(|w: Seq<char>| token_of(w)),
        decreases end - i,
    {
        let c = line[i];
        assert(code[i as int] == c);
        let ghost old_out = out@.map_values(|t: String| t@);
        let ghost old_done = done;
        let ghost old_cur = cur@;
        if is_white_space_char(c) {
            if cur.len() > 0 {
                let t = make_token(&cur);
                out.push(t);
                proof {
                    done = done.push(cur@);
                    assert(out@.map_values(|t: String| t@) =~= old_out.push(token_of(old_cur)));
                }
                cur = Vec::new();
            } else {
                assert(old_cur =~= Seq::<char>::empty());
            }
            assert(cur@ =~= Seq::<char>::empty());
            assert(words_from(code, i as int, old_cur) == (if old_cur.len() > 0 {
                seq![old_cur]
            } else {
                Seq::<Seq<char>>::empty()
            }) + words_from(code, i + 1, Seq::empty()));
        } else {
            cur.push(c);
            assert(words_from(code, i as int, old_cur) == words_from(code, i + 1, old_cur.push(c)));
            assert(done + words_from(code, i + 1, cur@) =~= ws);
        }
        i = i + 1;
        assert(out@.map_values(|t: String| t@) =~= done.map_values(|w: Seq<char>| token_of(w)));
    }
    let ghost old_out = out@.map_values(|t: String| t@);
    if cur.len() > 0 {
        let t = make_token(&cur);
        out.push(t);
        proof {
            assert(out@.map_values(|t: String| t@) =~= old_out.push(token_of(cur@)));
            done = done.push(cur@);
        }
    }
    assert(done =~= ws);
    assert(out@.map_values(|t: String| t@) =~= done.map_values(|w: Seq<char>| token_of(w)));
    out
}

/// The numbered token lines of `source` (see `tokenize_spec`).
pub(crate) fn tokenize(source: &str) -> (r: Vec<(usize, Vec<String>)>)
    ensures
        lines_view(r@) == tokenize_spec(source@),
{
    let chars = chars_of(source);
    let lines = split_lines_exec(&chars);
    let ghost ls = lines@.map_values(|l: Vec<char>| l@);
    let mut out: Vec<(usize, Vec<String>)> = Vec::new();
    let mut k: usize = 0;
    while k < lines.len()
        invariant
            k <= lines@.len(),
            ls == lines@.map_values(|l: Vec<char>| l@),
            ls == split_lines(source@),
            lines_view(out@) == numbered(ls, k as nat),
        decreases lines@.len() - k,
    {
        let toks = line_tokens_exec(&lines[k]);
        let ghost before = lines_view(out@);
        if toks.len() > 0 {
            out.push((k + 1, toks));
            assert(lines_view(out@) =~= before.push(((k + 1) as usize, line_tokens(ls[k as int]))));
        }
        k = k + 1;
    }
    out
}

} // verus!

//! Reading integer literals the way `str::parse::<u16>`, `str::parse::<i16>`
//! and `u16::from_str_radix(_, 16)` do: an optional sign (`+` for unsigned,
//! `+` or `-` for signed), then one or more digits, within the type's range.

use vstd::prelude::*;

verus! {

/// Whether `c` is a digit in radix `r` (10 or 16; hex digits in either case).
pub open spec fn is_digit_in(c: char, r: nat) -> bool {
    ('0' <= c && c <= '9') || (r == 16 && (('A' <= c && c <= 'F') || ('a' <= c && c <= 'f')))
}

/// The value of a digit character.
pub open spec fn digit_value(c: char) -> nat {
    if '0' <= c && c <= '9' {
        (c as u32 - 48) as nat
    } else if 'A' <= c && c <= 'F' {
        (c as u32 - 55) as nat
    } else {
        (c as u32 - 87) as nat
    }
}

/// Whether `s` is one or more digits in radix `r`.
pub open spec fn all_digits(s: Seq<char>, r: nat) -> bool {
    s.len() > 0 && forall|i: int| 0 <= i < s.len() ==> is_digit_in(#[trigger] s[i], r)
}

/// The value of the digit string `s` in radix `r`.
pub open spec fn digits_value(s: Seq<char>, r: nat) -> nat
    decreases s.len(),
{
    if s.len() == 0 {
        0
    } else {
        digits_value(s.drop_last(), r) * r + digit_value(s.last())
    }
}

/// `s` without one leading `+`.
pub open spec fn without_plus(s: Seq<char>) -> Seq<char> {
    if s.len() > 0 && s[0] == '+' {
        s.drop_first()
    } else {
        s
    }
}

/// What `u16::from_str_radix(s, r)` gives (`r` is 10 or 16).
pub open spec fn parse_u16_spec(s: Seq<char>, r: nat) -> Option<u16> {
    let d = without_plus(s);
    if all_digits(d, r) && digits_value(d, r) <= 65535 {
        Some(digits_value(d, r) as u16)
    } else {
        None
    }
}

/// What `str::parse::<i16>` gives, as an integer.
pub open spec fn parse_i16_spec(s: Seq<char>) -> Option<int> {
    if s.len() > 0 && s[0] == '-' {
        let d = s.drop_first();
        if all_digits(d, 10) && digits_value(d, 10) <= 32768 {
            Some(-(digits_value(d, 10) as int))
        } else {
            None
        }
    } else {
        let d = without_plus(s);
        if all_digits(d, 10) && digits_value(d, 10) <= 32767 {
            Some(digits_value(d, 10) as int)
        } else {
            None
        }
    }
}

proof fn lemma_value_grows(s: Seq<char>, r: nat, i: int, j: int)
    requires
        0 <= i <= j <= s.len(),
        r == 10 || r == 16,
    ensures
        digits_value(s.take(i), r) <= digits_value(s.take(j), r),
    decreases j - i,
{
    if i < j {
        lemma_value_grows(s, r, i, j - 1);
        assert(s.take(j).drop_last() =~= s.take(j - 1));
    }
}

/// The value of the digits `s[from..]` in radix `r` when they are one or
/// more digits worth at most `limit`; `None` otherwise.
fn digits_from(s: &Vec<char>, from: usize, r: u32, limit: u32) -> (v: Option<u32>)
    requires
        r == 10 || r == 16,
        limit <= 65535,
        from <= s@.len(),
    ensures
        ({
            let d = s@.skip(from as int);
            if all_digits(d, r as nat) && digits_value(d, r as nat) <= limit {
                v == Some(digits_value(d, r as nat) as u32)
            } else {
                v is None
            }
        }),
{
    let ghost d = s@.skip(from as int);
    if from == s.len() {
        return None;
    }
    let mut acc: u32 = 0;
    let mut i = from;
    assert(d.take(0) =~= Seq::<char>::empty());
    while i < s.len()
        invariant
            from <= i <= s@.len(),
            d == s@.skip(from as int),
            r == 10 || r == 16,
            limit <= 65535,
            acc <= limit,
            acc == digits_value(d.take(i - from), r as nat),
            forall|k: int| 0 <= k < i - from ==> is_digit_in(#[trigger] d[k], r as nat),
        decreases s@.len() - i,
    {
        let c = s[i];
        assert(d[i - from] == c);
        let dv: u32 = if '0' <= c && c <= '9' {
            (c as u32) - 48
        } else if r == 16 && 'A' <= c && c <= 'F' {
            (c as u32) - 55
        } else if r == 16 && 'a' <= c && c <= 'f' {
            (c as u32) - 87
        } else {
            return None;
        };
        assert(d.take(i - from + 1).drop_last() =~= d.take(i - from));
        let next = acc * r + dv;
        assert(next == digits_value(d.take(i - from + 1), r as nat));
        i = i + 1;
        if next > limit {
            proof {
                lemma_value_grows(d, r as nat, i - from, d.len() as int);
                assert(d.take(d.len() as int) =~= d);
            }
            return None;
        }
        acc = next;
    }
    assert(d.take(i - from) =~= d);
    Some(acc)
}

/// `u16::from_str_radix(s, r)` for `r` of 10 or 16 (see `parse_u16_spec`).
pub(crate) fn parse_u16(s: &Vec<char>, r: u32) -> (v: Option<u16>)
    requires
        r == 10 || r == 16,
    ensures
        v == parse_u16_spec(s@, r as nat),
{
    let from: usize = if s.len() > 0 && s[0] == '+' {
        1
    } else {
        0
    };
    assert(s@.skip(from as int) =~= without_plus(s@));
    match digits_from(s, from, r, 65535) {
        Some(x) => Some(x as u16),
        None => None,
    }
}

/// `str::parse::<i16>` (see `parse_i16_spec`).
pub(crate) fn parse_i16(s: &Vec<char>) -> (v: Option<i16>)
    ensures
        v matches Some(x) ==> parse_i16_spec(s@) == Some(x as int),
        v is None ==> parse_i16_spec(s@) is None,
{
    if s.len() > 0 && s[0] == '-' {
        assert(s@.skip(1) =~= s@.drop_first());
        match digits_from(s, 1, 10, 32768) {
            Some(x) => Some((0 - x as i32) as i16),
            None => None,
        }
    } else {
        let from: usize = if s.len() > 0 && s[0] == '+' {
            1
        } else {
            0
        };
        assert(s@.skip(from as int) =~= without_plus(s@));
        match digits_from(s, from, 10, 32767) {
            Some(x) => Some(x as i16),
            None => None,
        }
    }
}

} // verus!

//! Small verified text helpers: case-insensitive comparison, character
//! search, prefix tests and decimal parsing, each pinned to an exact
//! specification over character sequences.

use vstd::prelude::*;

verus! {

/// The character code with an ASCII upper-case letter folded to lower case.
pub open spec fn lower_code(c: char) -> int {
    if 65 <= c as int <= 90 {
        c as int + 32
    } else {
        c as int
    }
}

/// Two character sequences are equal up to ASCII case.
pub open spec fn eq_ignore_case_spec(a: Seq<char>, b: Seq<char>) -> bool {
    a.len() == b.len() && forall|i: int| 0 <= i < a.len() ==> lower_code(a[i]) == lower_code(b[i])
}

/// Compares two strings, treating ASCII upper- and lower-case letters as
/// equal.
pub fn eq_ignore_ascii_case(a: &str, b: &str) -> (r: bool)
    ensures
        r == eq_ignore_case_spec(a@, b@),
{
    let alen = a.unicode_len();
    let blen = b.unicode_len();
    if alen != blen {
        return false;
    }
    let mut i: usize = 0;
    while i < alen
        invariant
            a@.len() == alen,
            b@.len() == blen,
            alen == blen,
            i <= alen,
            forall|k: int| 0 <= k < i ==> lower_code(a@[k]) == lower_code(b@[k]),
        decreases alen - i,
    {
        let ca = a.get_char(i) as u32;
        let cb = b.get_char(i) as u32;
        let la: u32 = if 65 <= ca && ca <= 90 {
            ca + 32
        } else {
            ca
        };
        let lb: u32 = if 65 <= cb && cb <= 90 {
            cb + 32
        } else {
            cb
        };
        if la != lb {
            return false;
        }
        i += 1;
    }
    true
}

/// Index of the first occurrence of `c` in `s` at or after `from`, or `-1`
/// when there is none.
pub open spec fn index_of_char(s: Seq<char>, c: char, from: int) -> int
    decreases s.len() - from,
{
    if !(0 <= from < s.len()) {
        -1
    } else if s[from] == c {
        from
    } else {
        index_of_char(s, c, from + 1)
    }
}

/// The found index carries its defining facts: it holds `c`, lies in range,
/// and nothing before it (from `from` on) holds `c`; `-1` means `c` does not
/// occur at or after `from`.
pub proof fn lemma_index_of_char(s: Seq<char>, c: char, from: int)
    requires
        0 <= from,
    ensures
        index_of_char(s, c, from) == -1 ==> forall|k: int| from <= k < s.len() ==> s[k] != c,
        index_of_char(s, c, from) != -1 ==> {
            let i = index_of_char(s, c, from);
            &&& from <= i < s.len()
            &&& s[i] == c
            &&& forall|k: int| from <= k < i ==> s[k] != c
        },
    decreases s.len() - from,
{
    if 0 <= from < s.len() && s[from] != c {
        lemma_index_of_char(s, c, from + 1);
    }
}

/// Finds the first occurrence of `c` in `s` at or after character position
/// `from`.
pub fn find_char(s: &str, c: char, from: usize) -> (r: Option<usize>)
    ensures
        match r {
            Some(i) => index_of_char(s@, c, from as int) == i,
            None => index_of_char(s@, c, from as int) == -1,
        },
{
    let len = s.unicode_len();
    let mut i: usize = from;
    if i >= len {
        proof {
            assert(index_of_char(s@, c, from as int) == -1);
        }
        return None;
    }
    while i < len
        invariant
            s@.len() == len,
            from <= i <= len,
            index_of_char(s@, c, from as int) == index_of_char(s@, c, i as int),
        decreases len - i,
    {
        if s.get_char(i) == c {
            return Some(i);
        }
        i += 1;
    }
    None
}

/// Whether `s` begins with the characters of `p`.
pub fn has_prefix(s: &str, p: &str) -> (r: bool)
    ensures
        r == (s@.len() >= p@.len() && s@.subrange(0, p@.len() as int) == p@),
{
    let slen = s.unicode_len();
    let plen = p.unicode_len();
    if slen < plen {
        return false;
    }
    let mut i: usize = 0;
    while i < plen
        invariant
            s@.len() == slen,
            p@.len() == plen,
            plen <= slen,
            i <= plen,
            forall|k: int| 0 <= k < i ==> s@[k] == p@[k],
        decreases plen - i,
    {
        if s.get_char(i) != p.get_char(i) {
            proof {
                assert(s@.subrange(0, plen as int)[i as int] != p@[i as int]);
            }
            return false;
        }
        i += 1;
    }
    proof {
        assert(s@.subrange(0, plen as int) =~= p@);
    }
    true
}

/// Whether every character of `s` is a decimal digit.
pub open spec fn all_digits(s: Seq<char>) -> bool {
    forall|i: int| 0 <= i < s.len() ==> 48 <= #[trigger] s[i] as int <= 57
}

/// The numeric value of a sequence of decimal digits.
pub open spec fn digits_value(s: Seq<char>) -> int
    decreases s.len(),
{
    if s.len() == 0 {
        0
    } else {
        digits_value(s.drop_last()) * 10 + (s.last() as int - 48)
    }
}

/// A digit string's value never shrinks as more digits are appended.
proof fn lemma_digits_value_prefix_le(s: Seq<char>, i: int)
    requires
        0 <= i <= s.len(),
        all_digits(s),
    ensures
        digits_value(s.subrange(0, i)) <= digits_value(s),
        digits_value(s) >= 0,
    decreases s.len() - i,
{
    if i == s.len() {
        assert(s.subrange(0, i) =~= s);
        lemma_digits_value_nonneg(s);
    } else {
        lemma_digits_value_prefix_le(s, i + 1);
        let t = s.subrange(0, i + 1);
        assert(t.drop_last() =~= s.subrange(0, i));
        lemma_digits_value_nonneg(s.subrange(0, i));
        assert(digits_value(t) == digits_value(s.subrange(0, i)) * 10 + (s[i] as int - 48));
        assert(digits_value(s.subrange(0, i)) * 10 >= digits_value(s.subrange(0, i))) by (nonlinear_arith)
            requires
                digits_value(s.subrange(0, i)) >= 0,
        ;
    }
}

proof fn lemma_digits_value_nonneg(s: Seq<char>)
    requires
        all_digits(s),
    ensures
        digits_value(s) >= 0,
    decreases s.len(),
{
    if s.len() > 0 {
        assert(all_digits(s.drop_last()));
        lemma_digits_value_nonneg(s.drop_last());
        assert(digits_value(s.drop_last()) * 10 >= 0) by (nonlinear_arith)
            requires
                digits_value(s.drop_last()) >= 0,
        ;
    }
}

/// The value of a non-empty, all-digit string that fits in `u32`.
pub open spec fn spec_parse_u32(s: Seq<char>) -> Option<u32> {
    let digits = if s.len() >= 1 && s[0] == '+' {
        s.subrange(1, s.len() as int)
    } else {
        s
    };
    if digits.len() >= 1 && all_digits(digits) && digits_value(digits) <= u32::MAX {
        Some(digits_value(digits) as u32)
    } else {
        None
    }
}

/// Parses a non-negative decimal integer, an optional leading `+` allowed.
/// Returns `None` when no digits follow, a non-digit appears, or the value
/// does not fit in `u32`.
#[verifier::loop_isolation(false)]
pub fn parse_u32_decimal(s: &str) -> (r: Option<u32>)
    ensures
        r == spec_parse_u32(s@),
{
    let len = s.unicode_len();
    let plus: bool = len >= 1 && s.get_char(0) == '+';
    let start: usize = if plus {
        1
    } else {
        0
    };
    let digits = s.substring_char(start, len);
    let ghost dv = digits@;
    proof {
        if plus {
            assert(dv =~= s@.subrange(1, s@.len() as int));
        } else {
            assert(dv =~= s@);
        }
    }
    let dlen = digits.unicode_len();
    if dlen == 0 {
        return None;
    }
    let mut acc: u64 = 0;
    let mut i: usize = 0;
    while i < dlen
        invariant
            dv == digits@,
            dv.len() == dlen,
            1 <= dlen,
            i <= dlen,
            all_digits(dv.subrange(0, i as int)),
            acc == digits_value(dv.subrange(0, i as int)),
            acc <= u32::MAX,
        decreases dlen - i,
    {
        let c = digits.get_char(i) as u32;
        if c < 48 || c > 57 {
            proof {
                assert(!all_digits(dv));
            }
            return None;
        }
        let d: u64 = (c - 48) as u64;
        let next: u64 = acc * 10 + d;
        proof {
            let t = dv.subrange(0, i as int + 1);
            assert(t.drop_last() =~= dv.subrange(0, i as int));
            assert(digits_value(t) == acc * 10 + d);
        }
        if next > 0xffff_ffffu64 {
            proof {
                if dv.len() >= 1 && all_digits(dv) {
                    lemma_digits_value_prefix_le(dv, i as int + 1);
                    assert(digits_value(dv) > u32::MAX);
                }
            }
            return None;
        }
        acc = next;
        i += 1;
    }
    proof {
        assert(dv.subrange(0, dlen as int) =~= dv);
    }
    Some(acc as u32)
}

} // verus!

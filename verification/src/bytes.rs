//! Byte-level scanning primitives for the adapters' header parsing: first
//! occurrence of a byte, ASCII-whitespace trimming, and decimal parsing.

use vstd::prelude::*;
use vstd::string::StringSliceAdditionalSpecFns;

verus! {

/// ASCII whitespace, as the header parsers trim it.
pub open spec fn is_ws(b: u8) -> bool {
    b == 32 || b == 9 || b == 13 || b == 10
}

fn is_ws_byte(b: u8) -> (r: bool)
    ensures
        r == is_ws(b),
{
    b == 32 || b == 9 || b == 13 || b == 10
}

/// The index of the first occurrence of `c`, if any.
pub open spec fn find_byte(s: Seq<u8>, c: u8) -> Option<int>
    decreases s.len(),
{
    if s.len() == 0 {
        None
    } else if s[0] == c {
        Some(0)
    } else {
        match find_byte(s.skip(1), c) {
            Some(i) => Some(i + 1),
            None => None,
        }
    }
}

/// What `find_byte` finds: the first occurrence, or nothing when none
/// occurs.
pub proof fn lemma_find_byte(s: Seq<u8>, c: u8)
    ensures
        match find_byte(s, c) {
            Some(i) => 0 <= i < s.len() && s[i] == c && forall|j: int| 0 <= j < i ==> s[j] != c,
            None => forall|j: int| 0 <= j < s.len() ==> s[j] != c,
        },
    decreases s.len(),
{
    if s.len() > 0 && s[0] != c {
        lemma_find_byte(s.skip(1), c);
        match find_byte(s.skip(1), c) {
            Some(i) => {
                assert(s[i + 1] == s.skip(1)[i]);
                assert forall|j: int| 0 <= j < i + 1 implies s[j] != c by {
                    if j > 0 {
                        assert(s.skip(1)[j - 1] != c);
                        assert(s[j] == s.skip(1)[j - 1]);
                    }
                }
            },
            None => {
                assert forall|j: int| 0 <= j < s.len() implies s[j] != c by {
                    if j > 0 {
                        assert(s.skip(1)[j - 1] != c);
                        assert(s[j] == s.skip(1)[j - 1]);
                    }
                }
            },
        }
    }
}

/// Finds the first occurrence of `c` in `h[start..end]`, as an absolute
/// index.
pub fn find_byte_in(h: &[u8], start: usize, end: usize, c: u8) -> (r: Option<usize>)
    requires
        start <= end <= h@.len(),
    ensures
        match r {
            Some(i) => start <= i < end && find_byte(h@.subrange(start as int, end as int), c)
                == Some(i - start),
            None => find_byte(h@.subrange(start as int, end as int), c) is None,
        },
{
    let ghost sub = h@.subrange(start as int, end as int);
    let mut i: usize = start;
    while i < end
        invariant
            start <= i <= end <= h@.len(),
            sub == h@.subrange(start as int, end as int),
            forall|j: int| 0 <= j < i - start ==> sub[j] != c,
        decreases end - i,
    {
        if h[i] == c {
            proof {
                assert(sub[i - start] == c);
                lemma_find_byte(sub, c);
                if let Some(k) = find_byte(sub, c) {
                    if k < i - start {
                        assert(sub[k] != c);
                    } else if k > i - start {
                        assert(sub[i - start] != c);
                    }
                }
            }
            return Some(i);
        }
        i = i + 1;
    }
    proof {
        lemma_find_byte(sub, c);
    }
    None
}

/// The byte string with ASCII whitespace removed from both ends.
pub open spec fn trim_bytes(s: Seq<u8>) -> Seq<u8>
    decreases s.len(),
{
    if s.len() == 0 {
        s
    } else if is_ws(s[0]) {
        trim_bytes(s.skip(1))
    } else if is_ws(s.last()) {
        trim_bytes(s.drop_last())
    } else {
        s
    }
}

/// The bounds of `h[start..end]` with ASCII whitespace trimmed from both
/// ends.
pub fn trim_range(h: &[u8], start: usize, end: usize) -> (r: (usize, usize))
    requires
        start <= end <= h@.len(),
    ensures
        start <= r.0 <= r.1 <= end,
        trim_bytes(h@.subrange(start as int, end as int)) == h@.subrange(r.0 as int, r.1 as int),
{
    let mut lo: usize = start;
    while lo < end && is_ws_byte(h[lo])
        invariant
            start <= lo <= end <= h@.len(),
            trim_bytes(h@.subrange(start as int, end as int)) == trim_bytes(
                h@.subrange(lo as int, end as int),
            ),
        decreases end - lo,
    {
        proof {
            assert(h@.subrange(lo as int, end as int).skip(1) =~= h@.subrange(
                lo + 1,
                end as int,
            ));
        }
        lo = lo + 1;
    }
    let mut hi: usize = end;
    while hi > lo && is_ws_byte(h[hi - 1])
        invariant
            start <= lo <= hi <= end <= h@.len(),
            lo < hi ==> !is_ws(h@.subrange(lo as int, hi as int)[0]),
            trim_bytes(h@.subrange(start as int, end as int)) == trim_bytes(
                h@.subrange(lo as int, hi as int),
            ),
        decreases hi - lo,
    {
        proof {
            assert(h@.subrange(lo as int, hi as int).drop_last() =~= h@.subrange(
                lo as int,
                hi - 1,
            ));
        }
        hi = hi - 1;
    }
    (lo, hi)
}

/// Copies `h[start..end]` out.
pub fn copy_range(h: &[u8], start: usize, end: usize) -> (r: Vec<u8>)
    requires
        start <= end <= h@.len(),
    ensures
        r@ == h@.subrange(start as int, end as int),
{
    let mut v: Vec<u8> = Vec::new();
    let mut i: usize = start;
    while i < end
        invariant
            start <= i <= end <= h@.len(),
            v@ =~= h@.subrange(start as int, i as int),
        decreases end - i,
    {
        v.push(h[i]);
        i = i + 1;
    }
    proof {
        assert(v@ =~= h@.subrange(start as int, end as int));
    }
    v
}

/// An ASCII decimal digit.
pub open spec fn is_digit(b: u8) -> bool {
    48 <= b <= 57
}

pub open spec fn all_digits(s: Seq<u8>) -> bool {
    forall|j: int| 0 <= j < s.len() ==> is_digit(#[trigger] s[j])
}

/// The value of a digit string read in base ten.
pub open spec fn digits_val(s: Seq<u8>) -> int
    decreases s.len(),
{
    if s.len() == 0 {
        0
    } else {
        digits_val(s.drop_last()) * 10 + (s.last() - 48)
    }
}

pub proof fn lemma_digits_nonneg(s: Seq<u8>)
    requires
        all_digits(s),
    ensures
        digits_val(s) >= 0,
    decreases s.len(),
{
    if s.len() > 0 {
        assert(all_digits(s.drop_last()));
        lemma_digits_nonneg(s.drop_last());
    }
}

/// Appending digits never shrinks the value.
pub proof fn lemma_digits_monotone(s: Seq<u8>, i: int)
    requires
        all_digits(s),
        0 <= i <= s.len(),
    ensures
        digits_val(s) >= digits_val(s.take(i)),
    decreases s.len(),
{
    if i == s.len() {
        assert(s.take(i) =~= s);
    } else {
        assert(all_digits(s.drop_last()));
        assert(s.drop_last().take(i) =~= s.take(i));
        lemma_digits_monotone(s.drop_last(), i);
        lemma_digits_nonneg(s.drop_last());
    }
}

/// What parsing a base-ten `u32` from a byte string yields: the value of a
/// non-empty all-digit string when it fits, nothing otherwise.
pub open spec fn spec_parse_u32(s: Seq<u8>) -> Option<u32> {
    if s.len() > 0 && all_digits(s) && digits_val(s) <= u32::MAX {
        Some(digits_val(s) as u32)
    } else {
        None
    }
}

/// Parses a non-empty ASCII decimal digit string as a `u32`.
pub fn parse_u32(s: &str) -> (r: Option<u32>)
    ensures
        r == spec_parse_u32(s.spec_bytes()),
{
    let bytes = s.as_bytes();
    let n = bytes.len();
    if n == 0 {
        return None;
    }
    let mut i: usize = 0;
    let mut acc: u64 = 0;
    while i < n
        invariant
            n == bytes@.len(),
            bytes@ == s.spec_bytes(),
            i <= n,
            all_digits(bytes@.take(i as int)),
            acc == digits_val(bytes@.take(i as int)),
            acc <= u32::MAX,
        decreases n - i,
    {
        proof {
            assert(bytes@.take(i + 1).drop_last() =~= bytes@.take(i as int));
            assert(bytes@.take(i + 1).last() == bytes@[i as int]);
        }
        let b = bytes[i];
        if !(48 <= b && b <= 57) {
            proof {
                assert(!is_digit(bytes@[i as int]));
                assert(!all_digits(bytes@));
            }
            return None;
        }
        let next: u64 = acc * 10 + ((b - 48) as u64);
        if next > u32::MAX as u64 {
            proof {
                assert(digits_val(bytes@.take(i + 1)) > u32::MAX);
                if all_digits(bytes@) {
                    lemma_digits_monotone(bytes@, i + 1);
                }
            }
            return None;
        }
        acc = next;
        i = i + 1;
    }
    proof {
        assert(bytes@.take(n as int) =~= bytes@);
    }
    Some(acc as u32)
}

} // verus!

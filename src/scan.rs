//! Scanning byte sequences: the first position that satisfies a predicate.

use vstd::prelude::*;

verus! {

/// Index of the first byte of `s` that satisfies `p`, or `s.len()` if none does.
pub open spec fn first_match(s: Seq<u8>, p: spec_fn(u8) -> bool) -> nat
    decreases s.len(),
{
    if s.len() == 0 {
        0
    } else if p(s[0]) {
        0
    } else {
        1 + first_match(s.drop_first(), p)
    }
}

/// `first_match` is the position `k` before which no byte satisfies `p` and at
/// which either `s` ends or a byte satisfies it.
pub proof fn lemma_first_match(s: Seq<u8>, p: spec_fn(u8) -> bool, k: int)
    requires
        0 <= k <= s.len(),
        forall|j: int| 0 <= j < k ==> !p(#[trigger] s[j]),
        k == s.len() || p(s[k]),
    ensures
        first_match(s, p) == k,
    decreases k,
{
    if k > 0 {
        assert(!p(s[0]));
        let t = s.drop_first();
        assert forall|j: int| 0 <= j < k - 1 implies !p(#[trigger] t[j]) by {
            assert(t[j] == s[j + 1]);
        }
        if k < s.len() {
            assert(t[k - 1] == s[k]);
        }
        lemma_first_match(t, p, k - 1);
    }
}

pub open spec fn is_newline(b: u8) -> bool {
    b == 10u8
}

pub open spec fn is_colon(b: u8) -> bool {
    b == 58u8
}

/// The ASCII whitespace bytes: tab, line feed, vertical tab, form feed,
/// carriage return and space.
pub open spec fn is_space(b: u8) -> bool {
    b == 9u8 || b == 10u8 || b == 11u8 || b == 12u8 || b == 13u8 || b == 32u8
}

/// The length of the whitespace character that `s` starts with, in UTF-8,
/// or 0 if it starts with none. Whitespace is what `char::is_whitespace`
/// accepts: the ASCII whitespace, U+0085, U+00A0, U+1680, U+2000 to
/// U+200A, U+2028, U+2029, U+202F, U+205F and U+3000.
pub open spec fn space_len(s: Seq<u8>) -> nat {
    if s.len() >= 1 && is_space(s[0]) {
        1
    } else if s.len() >= 2 && s[0] == 0xC2u8 && (s[1] == 0x85u8 || s[1] == 0xA0u8) {
        2
    } else if s.len() >= 3 && (
        (s[0] == 0xE1u8 && s[1] == 0x9Au8 && s[2] == 0x80u8)
        || (s[0] == 0xE2u8 && s[1] == 0x80u8 && ((0x80u8 <= s[2] && s[2] <= 0x8Au8) || s[2] == 0xA8u8
            || s[2] == 0xA9u8 || s[2] == 0xAFu8))
        || (s[0] == 0xE2u8 && s[1] == 0x81u8 && s[2] == 0x9Fu8)
        || (s[0] == 0xE3u8 && s[1] == 0x80u8 && s[2] == 0x80u8)
    ) {
        3
    } else {
        0
    }
}

pub open spec fn newline() -> spec_fn(u8) -> bool {
    |b: u8| is_newline(b)
}

pub open spec fn colon() -> spec_fn(u8) -> bool {
    |b: u8| is_colon(b)
}

/// The contents of each vector in `v`.
pub open spec fn views_of(v: Seq<Vec<u8>>) -> Seq<Seq<u8>> {
    v.map_values(|x: Vec<u8>| x@)
}

/// The length of the whitespace character that starts at `i` in `s`.
pub fn space_len_at(s: &[u8], i: usize) -> (r: usize)
    requires
        i <= s@.len(),
    ensures
        r == space_len(s@.skip(i as int)),
        r <= s@.len() - i,
{
    let ghost t = s@.skip(i as int);
    let n = s.len() - i;
    if n >= 1 {
        let b = s[i];
        assert(t[0] == b);
        if b == 9u8 || b == 10u8 || b == 11u8 || b == 12u8 || b == 13u8 || b == 32u8 {
            return 1;
        }
    }
    if n >= 2 {
        let b0 = s[i];
        let b1 = s[i + 1];
        assert(t[0] == b0 && t[1] == b1);
        if b0 == 0xC2u8 && (b1 == 0x85u8 || b1 == 0xA0u8) {
            return 2;
        }
    }
    if n >= 3 {
        let b0 = s[i];
        let b1 = s[i + 1];
        let b2 = s[i + 2];
        assert(t[0] == b0 && t[1] == b1 && t[2] == b2);
        if (b0 == 0xE1u8 && b1 == 0x9Au8 && b2 == 0x80u8)
            || (b0 == 0xE2u8 && b1 == 0x80u8 && ((0x80u8 <= b2 && b2 <= 0x8Au8) || b2 == 0xA8u8
                || b2 == 0xA9u8 || b2 == 0xAFu8))
            || (b0 == 0xE2u8 && b1 == 0x81u8 && b2 == 0x9Fu8)
            || (b0 == 0xE3u8 && b1 == 0x80u8 && b2 == 0x80u8) {
            return 3;
        }
    }
    0
}

/// First position at or after `from` that holds `target`, or `s.len()`.
pub fn find_byte(s: &[u8], from: usize, target: u8) -> (r: usize)
    requires
        from <= s@.len(),
    ensures
        from <= r <= s@.len(),
        forall|j: int| from <= j < r ==> s@[j] != target,
        r == s@.len() || s@[r as int] == target,
{
    let mut i: usize = from;
    while i < s.len()
        invariant
            from <= i <= s@.len(),
            forall|j: int| from <= j < i ==> s@[j] != target,
        decreases s@.len() - i,
    {
        if s[i] == target {
            return i;
        }
        i = i + 1;
    }
    i
}

/// A copy of `s[from..to]`.
pub fn copy_range(s: &[u8], from: usize, to: usize) -> (r: Vec<u8>)
    requires
        from <= to <= s@.len(),
    ensures
        r@ == s@.subrange(from as int, to as int),
{
    let mut r: Vec<u8> = Vec::new();
    let mut i: usize = from;
    while i < to
        invariant
            from <= i <= to <= s@.len(),
            r@ == s@.subrange(from as int, i as int),
        decreases to - i,
    {
        r.push(s[i]);
        assert(r@ =~= s@.subrange(from as int, i + 1));
        i = i + 1;
    }
    r
}

/// Whether `a` and `b` hold the same bytes.
pub fn bytes_equal(a: &[u8], b: &[u8]) -> (r: bool)
    ensures
        r == (a@ == b@),
{
    if a.len() != b.len() {
        return false;
    }
    let mut i: usize = 0;
    while i < a.len()
        invariant
            a@.len() == b@.len(),
            i <= a@.len(),
            forall|j: int| 0 <= j < i ==> a@[j] == b@[j],
        decreases a@.len() - i,
    {
        if a[i] != b[i] {
            return false;
        }
        i = i + 1;
    }
    assert(a@ =~= b@);
    true
}

} // verus!

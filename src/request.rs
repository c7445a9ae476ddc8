//! Framing of a client's request: when it is complete, and its lines.

use vstd::prelude::*;
use crate::scan::{copy_range, find_byte, first_match, lemma_first_match, newline};

verus! {

/// The four bytes CR LF CR LF that end a request's header block.
pub open spec fn header_end() -> Seq<u8> {
    seq![13u8, 10u8, 13u8, 10u8]
}

/// A buffered request is complete once it ends with CR LF CR LF.
pub open spec fn is_complete(buf: Seq<u8>) -> bool {
    buf.len() >= 4 && buf.subrange(buf.len() - 4, buf.len() as int) == header_end()
}

/// A line without the carriage return that ended it, if one did.
pub open spec fn strip_cr(l: Seq<u8>) -> Seq<u8> {
    if l.len() > 0 && l.last() == 13u8 {
        l.drop_last()
    } else {
        l
    }
}

/// The lines of a request, as `str::lines` splits them: at each line feed,
/// dropping a carriage return just before it; a final line feed starts no
/// new line.
pub open spec fn lines_of(s: Seq<u8>) -> Seq<Seq<u8>>
    decreases s.len(),
{
    if s.len() == 0 {
        seq![]
    } else {
        let k = first_match(s, newline()) as int;
        if k >= s.len() {
            seq![s]
        } else {
            seq![strip_cr(s.take(k))].add(lines_of(s.skip(k + 1)))
        }
    }
}

pub open spec fn has_prefix(l: Seq<u8>, pre: Seq<u8>) -> bool {
    pre.len() <= l.len() && l.subrange(0, pre.len() as int) == pre
}

/// The first of `lines` that starts with `pre`.
pub open spec fn first_with_prefix(lines: Seq<Seq<u8>>, pre: Seq<u8>) -> Option<Seq<u8>>
    decreases lines.len(),
{
    if lines.len() == 0 {
        None
    } else if has_prefix(lines[0], pre) {
        Some(lines[0])
    } else {
        first_with_prefix(lines.drop_first(), pre)
    }
}

/// The line found starts with the prefix it was sought by.
pub proof fn lemma_found_has_prefix(lines: Seq<Seq<u8>>, pre: Seq<u8>)
    ensures
        first_with_prefix(lines, pre) matches Some(l) ==> has_prefix(l, pre),
    decreases lines.len(),
{
    if lines.len() > 0 && !has_prefix(lines[0], pre) {
        lemma_found_has_prefix(lines.drop_first(), pre);
    }
}

/// The request's first line; empty when the request has no line.
pub open spec fn first_line(s: Seq<u8>) -> Seq<u8> {
    let ls = lines_of(s);
    if ls.len() == 0 {
        seq![]
    } else {
        ls[0]
    }
}

/// Whether `buf` ends with CR LF CR LF.
pub fn request_complete(buf: &[u8]) -> (r: bool)
    ensures
        r == is_complete(buf@),
{
    let n = buf.len();
    if n < 4 {
        return false;
    }
    let r = buf[n - 4] == 13u8 && buf[n - 3] == 10u8 && buf[n - 2] == 13u8 && buf[n - 1] == 10u8;
    let ghost tail = buf@.subrange(n - 4, n as int);
    if r {
        assert(tail =~= header_end());
    } else {
        assert(tail[0] != 13u8 || tail[1] != 10u8 || tail[2] != 13u8 || tail[3] != 10u8);
        assert(tail != header_end());
    }
    r
}

/// Whether `l` starts with `pre`.
pub fn starts_with(l: &[u8], pre: &[u8]) -> (r: bool)
    ensures
        r == has_prefix(l@, pre@),
{
    if pre.len() > l.len() {
        return false;
    }
    let mut i: usize = 0;
    while i < pre.len()
        invariant
            pre@.len() <= l@.len(),
            i <= pre@.len(),
            forall|j: int| 0 <= j < i ==> l@[j] == pre@[j],
        decreases pre@.len() - i,
    {
        if l[i] != pre[i] {
            assert(l@.subrange(0, pre@.len() as int)[i as int] != pre@[i as int]);
            return false;
        }
        i = i + 1;
    }
    assert(l@.subrange(0, pre@.len() as int) =~= pre@);
    true
}

/// The line that starts at `pos`: where it ends (the line feed or the end
/// of `s`), and what it holds.
fn line_at(s: &[u8], pos: usize) -> (r: (usize, Vec<u8>))
    requires
        pos < s@.len(),
    ensures
        pos <= r.0 <= s@.len(),
        r.0 - pos == first_match(s@.skip(pos as int), newline()),
        r.0 < s@.len() ==> r.1@ == strip_cr(s@.subrange(pos as int, r.0 as int)),
        r.0 == s@.len() ==> r.1@ == s@.skip(pos as int),
        lines_of(s@.skip(pos as int)) == if r.0 < s@.len() {
            seq![r.1@].add(lines_of(s@.skip(r.0 + 1)))
        } else {
            seq![r.1@]
        },
{
    let k = find_byte(s, pos, 10u8);
    let ghost t = s@.skip(pos as int);
    proof {
        assert forall|j: int| 0 <= j < k - pos implies !newline()(#[trigger] t[j]) by {
            assert(t[j] == s@[pos + j]);
        }
        if k < s@.len() {
            assert(t[k - pos] == s@[k as int]);
        }
        lemma_first_match(t, newline(), k - pos);
        assert(t.take(k - pos) =~= s@.subrange(pos as int, k as int));
        if k < s@.len() {
            assert(t.skip(k - pos + 1) =~= s@.skip(k + 1));
        }
    }
    if k < s.len() {
        let mut line = copy_range(s, pos, k);
        if line.len() > 0 && line[line.len() - 1] == 13u8 {
            line.pop();
        }
        (k, line)
    } else {
        let line = copy_range(s, pos, k);
        assert(line@ =~= t);
        (k, line)
    }
}

/// The first line of the request in `s` that starts with `pre`.
pub fn find_line(s: &[u8], pre: &[u8]) -> (r: Option<Vec<u8>>)
    ensures
        match r {
            Some(l) => first_with_prefix(lines_of(s@), pre@) == Some(l@),
            None => first_with_prefix(lines_of(s@), pre@).is_none(),
        },
{
    let mut pos: usize = 0;
    assert(s@.skip(0) =~= s@);
    while pos < s.len()
        invariant
            pos <= s@.len(),
            first_with_prefix(lines_of(s@), pre@) == first_with_prefix(lines_of(s@.skip(pos as int)), pre@),
        decreases s@.len() - pos,
    {
        let (k, line) = line_at(s, pos);
        let ghost ls = lines_of(s@.skip(pos as int));
        if starts_with(&line, pre) {
            return Some(line);
        }
        if k >= s.len() {
            assert(ls.drop_first().len() == 0);
            assert(first_with_prefix(ls.drop_first(), pre@).is_none());
            return None;
        }
        assert(ls.drop_first() =~= lines_of(s@.skip(k + 1)));
        pos = k + 1;
    }
    assert(s@.skip(pos as int).len() == 0);
    None
}

/// The first line of the request in `s`.
pub fn read_first_line(s: &[u8]) -> (r: Vec<u8>)
    ensures
        r@ == first_line(s@),
{
    assert(s@.skip(0) =~= s@);
    if s.len() == 0 {
        return Vec::new();
    }
    let (_k, line) = line_at(s, 0);
    line
}

} // verus!

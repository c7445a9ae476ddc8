//! Parsing the request line `CONNECT <host>:<port> HTTP/<version>`.

use vstd::prelude::*;
use crate::scan::{bytes_equal, colon, copy_range, find_byte, first_match, lemma_first_match, space_len, space_len_at, views_of};

verus! {

/// The token `cur` gathered so far, as a list of at most one token.
pub open spec fn pending(cur: Seq<u8>) -> Seq<Seq<u8>> {
    if cur.len() > 0 {
        seq![cur]
    } else {
        seq![]
    }
}

/// The tokens of `cur` followed by `s`, where `cur` holds the bytes of a
/// token that `s` may continue.
pub open spec fn tokens_after(cur: Seq<u8>, s: Seq<u8>) -> Seq<Seq<u8>>
    decreases s.len(),
{
    if s.len() == 0 {
        pending(cur)
    } else if space_len(s) > 0 {
        pending(cur) + tokens_after(seq![], s.skip(space_len(s) as int))
    } else {
        tokens_after(cur.push(s[0]), s.drop_first())
    }
}

/// The whitespace-separated tokens of `s`: its maximal runs that hold no
/// whitespace character, in order.
pub open spec fn tokens_of(s: Seq<u8>) -> Seq<Seq<u8>> {
    tokens_after(seq![], s)
}

/// The method token `CONNECT`.
pub open spec fn connect_method() -> Seq<u8> {
    seq![67u8, 79u8, 78u8, 78u8, 69u8, 67u8, 84u8]
}

/// `host:port` split at its one colon, with a non-empty host; the port is
/// not checked further here.
pub open spec fn split_host_port(s: Seq<u8>) -> Option<(Seq<u8>, Seq<u8>)> {
    let k = first_match(s, colon()) as int;
    let rest = s.skip(k + 1);
    if 0 < k < s.len() && first_match(rest, colon()) == rest.len() {
        Some((s.take(k), rest))
    } else {
        None
    }
}

/// The host and port that a request line names, if it is exactly three
/// tokens, the first `CONNECT` and the second a `host:port`.
pub open spec fn connect_target(line: Seq<u8>) -> Option<(Seq<u8>, Seq<u8>)> {
    let t = tokens_of(line);
    if t.len() == 3 && t[0] == connect_method() {
        split_host_port(t[1])
    } else {
        None
    }
}

/// Where a tunnel is to go, as the request line wrote it.
pub struct ConnectTarget {
    pub host: Vec<u8>,
    pub port: Vec<u8>,
}

impl View for ConnectTarget {
    type V = (Seq<u8>, Seq<u8>);

    open spec fn view(&self) -> (Seq<u8>, Seq<u8>) {
        (self.host@, self.port@)
    }
}

/// The tokens of `s`.
pub fn split_tokens(s: &[u8]) -> (r: Vec<Vec<u8>>)
    ensures
        views_of(r@) == tokens_of(s@),
{
    let mut out: Vec<Vec<u8>> = Vec::new();
    let mut cur: Vec<u8> = Vec::new();
    let mut i: usize = 0;
    assert(s@.skip(0) =~= s@);
    assert(views_of(out@) =~= seq![]);
    while i < s.len()
        invariant
            i <= s@.len(),
            tokens_of(s@) == views_of(out@) + tokens_after(cur@, s@.skip(i as int)),
        decreases s@.len() - i,
    {
        let ghost t = s@.skip(i as int);
        let w = space_len_at(s, i);
        if w > 0 {
            assert(t.skip(w as int) =~= s@.skip(i + w));
            let ghost rest = tokens_after(seq![], s@.skip(i + w));
            if cur.len() > 0 {
                let ghost before = views_of(out@);
                let ghost c = cur@;
                out.push(cur);
                assert(views_of(out@) =~= before.push(c));
                assert(before + (pending(c) + rest) =~= views_of(out@) + rest);
            } else {
                assert(pending(cur@) =~= seq![]);
                assert(views_of(out@) + (pending(cur@) + rest) =~= views_of(out@) + rest);
            }
            cur = Vec::new();
            assert(cur@ =~= seq![]);
            i = i + w;
        } else {
            let b = s[i];
            assert(t[0] == b);
            assert(t.drop_first() =~= s@.skip(i + 1));
            cur.push(b);
            i = i + 1;
        }
    }
    assert(s@.skip(i as int).len() == 0);
    if cur.len() > 0 {
        let ghost before = views_of(out@);
        let ghost c = cur@;
        out.push(cur);
        assert(views_of(out@) =~= before + pending(c));
    } else {
        assert(views_of(out@) + pending(cur@) =~= views_of(out@));
    }
    out
}

fn connect_method_bytes() -> (r: Vec<u8>)
    ensures
        r@ == connect_method(),
{
    let r = vec![67u8, 79u8, 78u8, 78u8, 69u8, 67u8, 84u8];
    assert(r@ =~= connect_method());
    r
}

/// Splits `host:port` at its one colon.
pub fn parse_host_port(s: &[u8]) -> (r: Option<ConnectTarget>)
    ensures
        match r {
            Some(t) => split_host_port(s@) == Some(t@),
            None => split_host_port(s@).is_none(),
        },
{
    let k = find_byte(s, 0, 58u8);
    proof {
        assert forall|j: int| 0 <= j < k implies !colon()(#[trigger] s@[j]) by {}
        lemma_first_match(s@, colon(), k as int);
    }
    if k == 0 || k == s.len() {
        return None;
    }
    let k2 = find_byte(s, k + 1, 58u8);
    let ghost rest = s@.skip(k + 1);
    proof {
        assert forall|j: int| 0 <= j < k2 - (k + 1) implies !colon()(#[trigger] rest[j]) by {
            assert(rest[j] == s@[k + 1 + j]);
        }
        if k2 < s@.len() {
            assert(rest[k2 - (k + 1)] == s@[k2 as int]);
        }
        lemma_first_match(rest, colon(), k2 - (k + 1));
    }
    if k2 != s.len() {
        return None;
    }
    let host = copy_range(s, 0, k);
    let port = copy_range(s, k + 1, s.len());
    assert(host@ =~= s@.take(k as int));
    assert(port@ =~= rest);
    Some(ConnectTarget { host, port })
}

/// The target that the request line `line` names, if it is well formed.
pub fn parse_connect_line(line: &[u8]) -> (r: Option<ConnectTarget>)
    ensures
        match r {
            Some(t) => connect_target(line@) == Some(t@),
            None => connect_target(line@).is_none(),
        },
{
    let toks = split_tokens(line);
    let ghost tv = tokens_of(line@);
    if toks.len() != 3 {
        return None;
    }
    assert(tv[0] == toks@[0]@ && tv[1] == toks@[1]@);
    let method = connect_method_bytes();
    if !bytes_equal(&toks[0], &method) {
        return None;
    }
    parse_host_port(&toks[1])
}

} // verus!

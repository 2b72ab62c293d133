//! Byte-string primitives: span splicing, substring search, prefix tests and
//! occurrence replacement, each specified over `Seq<u8>`.
use vstd::prelude::*;

verus! {

/// `s` with the byte span `[start, end)` replaced by `repl`.
pub open spec fn splice(s: Seq<u8>, start: int, end: int, repl: Seq<u8>) -> Seq<u8> {
    s.subrange(0, start) + repl + s.subrange(end, s.len() as int)
}

/// `pat` occurs in `s` at offset `i`.
pub open spec fn matches_at(s: Seq<u8>, pat: Seq<u8>, i: int) -> bool {
    &&& 0 <= i
    &&& i + pat.len() <= s.len()
    &&& forall|k: int| 0 <= k < pat.len() ==> s[i + k] == pat[k]
}

/// `pat` occurs somewhere in `s`.
pub open spec fn contains_seq(s: Seq<u8>, pat: Seq<u8>) -> bool {
    exists|i: int| matches_at(s, pat, i)
}

/// Every occurrence of `from` in `s` replaced by `to`, scanning left to right
/// and never rescanning replaced text; `s` unchanged when `from` is empty.
pub open spec fn replace_all(s: Seq<u8>, from: Seq<u8>, to: Seq<u8>) -> Seq<u8>
    decreases s.len(),
{
    if from.len() == 0 || s.len() < from.len() {
        s
    } else if matches_at(s, from, 0) {
        to + replace_all(s.skip(from.len() as int), from, to)
    } else {
        seq![s[0]] + replace_all(s.skip(1), from, to)
    }
}

/// Replace the byte span `[start, end)` of `s` with `repl`.
pub fn splice_bytes(s: &[u8], start: usize, end: usize, repl: &[u8]) -> (r: Vec<u8>)
    requires
        start <= end <= s@.len(),
    ensures
        r@ == splice(s@, start as int, end as int, repl@),
{
    let mut out: Vec<u8> = Vec::new();
    let prefix = vstd::slice::slice_subrange(s, 0, start);
    out.extend_from_slice(prefix);
    out.extend_from_slice(repl);
    let suffix = vstd::slice::slice_subrange(s, end, s.len());
    out.extend_from_slice(suffix);
    assert(out@ =~= splice(s@, start as int, end as int, repl@));
    out
}

pub fn bytes_eq(a: &[u8], b: &[u8]) -> (r: bool)
    ensures
        r <==> a@ == b@,
{
    if a.len() != b.len() {
        return false;
    }
    let mut i: usize = 0;
    while i < a.len()
        invariant
            0 <= i <= a@.len(),
            a@.len() == b@.len(),
            forall|k: int| 0 <= k < i ==> a@[k] == b@[k],
        decreases a@.len() - i,
    {
        if *vstd::slice::slice_index_get(a, i) != *vstd::slice::slice_index_get(b, i) {
            return false;
        }
        i = i + 1;
    }
    assert(a@ =~= b@);
    true
}

/// Does `pat` occur in `s` at offset `i`?
pub fn match_at(s: &[u8], pat: &[u8], i: usize) -> (r: bool)
    requires
        i + pat@.len() <= s@.len(),
    ensures
        r <==> matches_at(s@, pat@, i as int),
{
    let slen = s.len();
    let mut k: usize = 0;
    while k < pat.len()
        invariant
            0 <= k <= pat@.len(),
            i + pat@.len() <= s@.len(),
            s@.len() <= usize::MAX,
            forall|j: int| 0 <= j < k ==> s@[i + j] == pat@[j],
        decreases pat@.len() - k,
    {
        if *vstd::slice::slice_index_get(s, i + k) != *vstd::slice::slice_index_get(pat, k) {
            return false;
        }
        k = k + 1;
    }
    true
}

/// Does `pat` occur anywhere in `s`?
pub fn contains_bytes(s: &[u8], pat: &[u8]) -> (r: bool)
    ensures
        r <==> contains_seq(s@, pat@),
{
    if pat.len() > s.len() {
        assert(forall|i: int| !matches_at(s@, pat@, i));
        return false;
    }
    if pat.len() == 0 {
        assert(matches_at(s@, pat@, 0));
        return true;
    }
    let mut i: usize = 0;
    let last = s.len() - pat.len();
    while i <= last
        invariant
            0 <= i <= last + 1,
            last == s@.len() - pat@.len(),
            0 < pat@.len() <= s@.len(),
            s@.len() <= usize::MAX,
            forall|j: int| 0 <= j < i ==> !matches_at(s@, pat@, j),
        decreases last + 1 - i,
    {
        if match_at(s, pat, i) {
            return true;
        }
        i = i + 1;
    }
    assert(forall|j: int| !matches_at(s@, pat@, j));
    false
}

/// Is `pat` a prefix of `s`?
pub fn starts_with_bytes(s: &[u8], pat: &[u8]) -> (r: bool)
    ensures
        r <==> pat@.is_prefix_of(s@),
{
    if pat.len() > s.len() {
        return false;
    }
    let r = match_at(s, pat, 0);
    if r {
        assert(pat@ =~= s@.subrange(0, pat@.len() as int));
    } else {
        assert(!(pat@.is_prefix_of(s@))) by {
            if pat@.is_prefix_of(s@) {
                assert(forall|k: int| 0 <= k < pat@.len() ==> s@[k] == pat@[k]);
            }
        }
    }
    r
}

/// Every occurrence of `from` in `s` replaced by `to`.
pub fn replace_all_bytes(s: &[u8], from: &[u8], to: &[u8]) -> (r: Vec<u8>)
    ensures
        r@ == replace_all(s@, from@, to@),
{
    if from.len() == 0 {
        return vstd::slice::slice_to_vec(s);
    }
    let mut out: Vec<u8> = Vec::new();
    let mut i: usize = 0;
    proof {
        assert(s@.skip(0) =~= s@);
        assert(out@ + replace_all(s@, from@, to@) =~= replace_all(s@, from@, to@));
    }
    while i < s.len()
        invariant
            0 <= i <= s@.len(),
            from@.len() > 0,
            replace_all(s@, from@, to@) == out@ + replace_all(s@.skip(i as int), from@, to@),
        decreases s@.len() - i,
    {
        let ghost tail = s@.skip(i as int);
        if s.len() - i >= from.len() && match_at(s, from, i) {
            proof {
                assert(matches_at(tail, from@, 0)) by {
                    assert(forall|k: int| 0 <= k < from@.len() ==> tail[k] == s@[i + k]);
                }
                assert(replace_all(tail, from@, to@) == to@ + replace_all(
                    tail.skip(from@.len() as int),
                    from@,
                    to@,
                ));
                assert(tail.skip(from@.len() as int) =~= s@.skip(i + from@.len()));
            }
            out.extend_from_slice(to);
            i = i + from.len();
        } else {
            proof {
                if s@.len() - i >= from@.len() {
                    assert(!matches_at(tail, from@, 0)) by {
                        if matches_at(tail, from@, 0) {
                            assert(forall|k: int| 0 <= k < from@.len() ==> s@[i + k] == tail[k]);
                        }
                    }
                    assert(replace_all(tail, from@, to@) == seq![tail[0]] + replace_all(
                        tail.skip(1),
                        from@,
                        to@,
                    ));
                } else {
                    assert(replace_all(tail, from@, to@) == tail);
                    assert(tail == seq![tail[0]] + tail.skip(1));
                }
                assert(tail.skip(1) =~= s@.skip(i + 1));
                assert(seq![tail[0]] =~= seq![s@[i as int]]);
            }
            let b = *vstd::slice::slice_index_get(s, i);
            out.push(b);
            i = i + 1;
        }
    }
    proof {
        assert(s@.skip(i as int) =~= Seq::<u8>::empty());
        assert(replace_all(Seq::<u8>::empty(), from@, to@) =~= Seq::<u8>::empty());
        assert(out@ =~= out@ + Seq::<u8>::empty());
    }
    out
}

} // verus!

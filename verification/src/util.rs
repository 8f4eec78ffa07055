//! NUL-terminated byte strings and byte-slice comparison.

use vstd::prelude::*;

verus! {

/// The index of the first NUL byte of `s`, or `s.len()` if it holds none.
pub open spec fn nul_index(s: Seq<u8>) -> int
    decreases s.len(),
{
    if s.len() == 0 || s[0] == 0 {
        0
    } else {
        1 + nul_index(s.drop_first())
    }
}

/// The bytes of `s` before its first NUL byte; all of `s` if it holds none.
pub open spec fn c_string(s: Seq<u8>) -> Seq<u8> {
    s.take(nul_index(s))
}

/// `nul_index(s)` lies within `s`, no byte before it is NUL, and the byte at
/// it, if there is one, is NUL.
pub proof fn lemma_nul_index(s: Seq<u8>)
    ensures
        0 <= nul_index(s) <= s.len(),
        forall|i: int| 0 <= i < nul_index(s) ==> s[i] != 0,
        nul_index(s) < s.len() ==> s[nul_index(s)] == 0,
    decreases s.len(),
{
    if s.len() == 0 || s[0] == 0 {
    } else {
        let t = s.drop_first();
        lemma_nul_index(t);
        assert forall|i: int| 0 <= i < nul_index(s) implies s[i] != 0 by {
            if i > 0 {
                assert(s[i] == t[i - 1]);
            }
        }
        assert(nul_index(s) < s.len() ==> s[nul_index(s)] == t[nul_index(t)]);
    }
}

/// An index with no NUL byte before it, which is the end of `s` or holds a
/// NUL byte, is `nul_index(s)`.
pub proof fn lemma_nul_index_is(s: Seq<u8>, n: int)
    requires
        0 <= n <= s.len(),
        forall|i: int| 0 <= i < n ==> s[i] != 0,
        n < s.len() ==> s[n] == 0,
    ensures
        nul_index(s) == n,
{
    lemma_nul_index(s);
    let m = nul_index(s);
    if m < n {
        assert(s[m] != 0);
    } else if n < m {
        assert(s[n] != 0);
    }
}

/// A byte string trimmed at its first NUL holds no NUL byte.
pub proof fn lemma_c_string_has_no_nul(s: Seq<u8>)
    ensures
        !c_string(s).contains(0u8),
        c_string(s).len() <= s.len(),
{
    lemma_nul_index(s);
    let t = c_string(s);
    if t.contains(0u8) {
        let i = choose|i: int| 0 <= i < t.len() && t[i] == 0u8;
        assert(s[i] == t[i]);
    }
}

/// Borrows the part of `s` before its first NUL byte.
pub fn trim_c_string<'a>(s: &'a [u8]) -> (r: &'a [u8])
    ensures
        r@ == c_string(s@),
        !r@.contains(0u8),
{
    let mut n: usize = 0;
    while n < s.len() && s[n] != 0
        invariant
            n <= s@.len(),
            forall|i: int| 0 <= i < n ==> s@[i] != 0,
        decreases s@.len() - n,
    {
        n += 1;
    }
    proof {
        lemma_nul_index_is(s@, n as int);
        lemma_c_string_has_no_nul(s@);
    }
    let (head, _) = s.split_at(n);
    head
}

/// Whether two byte slices hold the same bytes.
pub fn bytes_eq(a: &[u8], b: &[u8]) -> (r: bool)
    ensures
        r <==> a@ == b@,
{
    if a.len() != b.len() {
        return false;
    }
    let mut i: usize = 0;
    while i < a.len()
        invariant
            i <= a@.len(),
            a@.len() == b@.len(),
            forall|j: int| 0 <= j < i ==> a@[j] == b@[j],
        decreases a@.len() - i,
    {
        if a[i] != b[i] {
            return false;
        }
        i += 1;
    }
    assert(a@ =~= b@);
    true
}

/// The byte range `data[start..start + bytes.len()]` holds `bytes`.
pub open spec fn lies_at(bytes: Seq<u8>, data: Seq<u8>, start: int) -> bool {
    &&& 0 <= start
    &&& start + bytes.len() <= data.len()
    &&& bytes == data.subrange(start, start + bytes.len())
}

/// `bytes` is a byte range of `data`.
pub open spec fn lies_in(bytes: Seq<u8>, data: Seq<u8>) -> bool {
    exists|start: int| lies_at(bytes, data, start)
}

/// A range of `data` is a byte range of `data`.
pub proof fn lemma_range_lies_in(data: Seq<u8>, from: int, to: int)
    requires
        0 <= from <= to <= data.len(),
    ensures
        lies_in(data.subrange(from, to), data),
{
    assert(lies_at(data.subrange(from, to), data, from));
}

/// A byte range of a byte range of `outer` is a byte range of `outer`.
pub proof fn lemma_lies_in_trans(bytes: Seq<u8>, inner: Seq<u8>, outer: Seq<u8>)
    requires
        lies_in(bytes, inner),
        lies_in(inner, outer),
    ensures
        lies_in(bytes, outer),
{
    let i = choose|i: int| lies_at(bytes, inner, i);
    let j = choose|j: int| lies_at(inner, outer, j);
    assert(bytes =~= outer.subrange(i + j, i + j + bytes.len()));
    assert(lies_at(bytes, outer, i + j));
}

/// A byte string trimmed at its first NUL is the front of the byte string.
pub proof fn lemma_c_string_lies_in(s: Seq<u8>)
    ensures
        lies_in(c_string(s), s),
{
    lemma_nul_index(s);
    lemma_range_lies_in(s, 0, nul_index(s));
}

/// Filtering a sequence with one more item at its end keeps that item
/// exactly when it passes.
pub proof fn lemma_filter_push<A>(s: Seq<A>, pred: spec_fn(A) -> bool, x: A)
    ensures
        s.push(x).filter(pred) == if pred(x) {
            s.filter(pred).push(x)
        } else {
            s.filter(pred)
        },
{
    reveal(Seq::filter);
    assert(s.push(x).drop_last() =~= s);
}

} // verus!

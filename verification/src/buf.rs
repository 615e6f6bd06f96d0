use vstd::prelude::*;

verus! {

/// Appends a copy of `s` to the end of `v`.
pub fn append_bytes(v: &mut Vec<u8>, s: &[u8])
    ensures
        final(v)@ == old(v)@ + s@,
{
    let mut i: usize = 0;
    while i < s.len()
        invariant
            i <= s@.len(),
            v@ == old(v)@ + s@.take(i as int),
        decreases s@.len() - i,
    {
        v.push(s[i]);
        i = i + 1;
        assert(v@ == old(v)@ + s@.take(i as int));
    }
    assert(s@.take(s@.len() as int) == s@);
}

/// Copies a slice of bytes into a fresh vector.
pub fn copy_bytes(s: &[u8]) -> (res: Vec<u8>)
    ensures
        res@ == s@,
{
    let mut res: Vec<u8> = Vec::new();
    append_bytes(&mut res, s);
    assert(res@ == s@);
    res
}

/// Whether `data`, read from index `start` on, begins with `prefix`.
pub fn matches_at(data: &[u8], start: usize, prefix: &[u8]) -> (res: bool)
    requires
        start <= data@.len(),
    ensures
        res == (start + prefix@.len() <= data@.len() && data@.subrange(
            start as int,
            start + prefix@.len(),
        ) == prefix@),
{
    if data.len() - start < prefix.len() {
        return false;
    }
    let mut i: usize = 0;
    while i < prefix.len()
        invariant
            i <= prefix@.len(),
            start + prefix@.len() <= data@.len(),
            data@.len() == data.len(),
            forall|j: int| 0 <= j < i ==> data@[start + j] == prefix@[j],
        decreases prefix@.len() - i,
    {
        if data[start + i] != prefix[i] {
            assert(data@.subrange(start as int, start + prefix@.len())[i as int] != prefix@[i as int]);
            return false;
        }
        i = i + 1;
    }
    assert(data@.subrange(start as int, start + prefix@.len()) =~= prefix@);
    true
}

/// A vector of `n` zero bytes.
pub fn zero_bytes(n: usize) -> (res: Vec<u8>)
    ensures
        res@ == Seq::new(n as nat, |i: int| 0u8),
{
    let mut res: Vec<u8> = Vec::new();
    let mut i: usize = 0;
    while i < n
        invariant
            i <= n,
            res@ == Seq::new(i as nat, |j: int| 0u8),
        decreases n - i,
    {
        res.push(0u8);
        i = i + 1;
        assert(res@ =~= Seq::new(i as nat, |j: int| 0u8));
    }
    res
}

} // verus!

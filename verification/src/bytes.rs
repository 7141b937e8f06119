//! Byte-sequence helpers shared by the protocol modules.
use vstd::prelude::*;

verus! {

/// Appends every byte of `data` to `buf`.
pub fn append_bytes(buf: &mut Vec<u8>, data: &[u8])
    ensures
        final(buf)@ == old(buf)@ + data@,
{
    let n = data.len();
    let mut i: usize = 0;
    while i < n
        invariant
            n == data@.len(),
            i <= n,
            buf@ == old(buf)@ + data@.subrange(0, i as int),
        decreases n - i,
    {
        buf.push(data[i]);
        i = i + 1;
        assert(data@.subrange(0, i as int) =~= data@.subrange(0, (i - 1) as int).push(data@[i - 1]));
    }
    assert(data@.subrange(0, n as int) =~= data@);
}

/// A new vector holding `a` followed by `b`.
pub fn concat(a: &[u8], b: &[u8]) -> (out: Vec<u8>)
    ensures
        out@ == a@ + b@,
{
    let mut out: Vec<u8> = Vec::new();
    append_bytes(&mut out, a);
    append_bytes(&mut out, b);
    assert(out@ =~= a@ + b@);
    out
}

/// A new vector holding the bytes of `data`.
pub fn to_vec(data: &[u8]) -> (out: Vec<u8>)
    ensures
        out@ == data@,
{
    let mut out: Vec<u8> = Vec::new();
    append_bytes(&mut out, data);
    assert(out@ =~= data@);
    out
}

/// The 32 bytes of `data` as an array.
pub fn to_array32(data: &[u8]) -> (out: [u8; 32])
    requires
        data@.len() == 32,
    ensures
        out@ == data@,
{
    let mut out = [0u8; 32];
    let mut i: usize = 0;
    while i < 32
        invariant
            data@.len() == 32,
            i <= 32,
            forall|j: int| 0 <= j < i ==> out@[j] == data@[j],
        decreases 32 - i,
    {
        out[i] = data[i];
        i = i + 1;
    }
    assert(out@ =~= data@);
    out
}

/// The bytes of `data` from index `start` up to (not including) `end`.
pub fn slice_range(data: &[u8], start: usize, end: usize) -> (out: Vec<u8>)
    requires
        start <= end <= data@.len(),
    ensures
        out@ == data@.subrange(start as int, end as int),
{
    let mut out: Vec<u8> = Vec::new();
    let mut i: usize = start;
    while i < end
        invariant
            start <= i <= end <= data@.len(),
            out@ == data@.subrange(start as int, i as int),
        decreases end - i,
    {
        out.push(data[i]);
        i = i + 1;
        assert(data@.subrange(start as int, i as int) =~= data@.subrange(start as int, (i - 1) as int).push(data@[i - 1]));
    }
    out
}

} // verus!

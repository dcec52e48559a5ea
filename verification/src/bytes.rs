//! Helpers on byte buffers: copying, comparing without an early exit, wiping.

use vstd::prelude::*;

verus! {

/// Appends the bytes of `source` to `out`.
pub fn append_bytes(out: &mut Vec<u8>, source: &[u8])
    ensures
        final(out)@ == old(out)@ + source@,
{
    let mut i: usize = 0;
    while i < source.len()
        invariant
            i <= source@.len(),
            out@ == old(out)@ + source@.subrange(0, i as int),
        decreases source@.len() - i,
    {
        out.push(source[i]);
        i += 1;
    }
}

/// A copy of the bytes of `source` from position `from` up to, not including, `to`.
pub fn copy_range(source: &[u8], from: usize, to: usize) -> (out: Vec<u8>)
    requires
        from <= to <= source@.len(),
    ensures
        out@ == source@.subrange(from as int, to as int),
{
    let mut out: Vec<u8> = Vec::new();
    let mut i: usize = from;
    while i < to
        invariant
            from <= i <= to <= source@.len(),
            out@ == source@.subrange(from as int, i as int),
        decreases to - i,
    {
        out.push(source[i]);
        i += 1;
    }
    out
}

/// A copy of the bytes of `source`.
pub fn copy_bytes(source: &[u8]) -> (out: Vec<u8>)
    ensures
        out@ == source@,
{
    copy_range(source, 0, source.len())
}

/// Whether two buffers hold the same bytes.
///
/// Buffers of one length are compared to the end whatever they hold; only a
/// difference in length is answered at once.
pub fn constant_time_eq(left: &[u8], right: &[u8]) -> (same: bool)
    ensures
        same == (left@ == right@),
{
    if left.len() != right.len() {
        return false;
    }
    let mut difference: u8 = 0;
    let mut i: usize = 0;
    assert(left@.subrange(0, 0) =~= right@.subrange(0, 0));
    while i < left.len()
        invariant
            i <= left@.len(),
            left@.len() == right@.len(),
            difference == 0 <==> left@.subrange(0, i as int) == right@.subrange(0, i as int),
        decreases left@.len() - i,
    {
        let a = left[i];
        let b = right[i];
        let ghost before = difference;
        difference = difference | (a ^ b);
        assert(difference == 0 <==> (before == 0 && a == b)) by (bit_vector)
            requires
                difference == before | (a ^ b),
        ;
        proof {
            let l0 = left@.subrange(0, i as int);
            let r0 = right@.subrange(0, i as int);
            let l1 = left@.subrange(0, i + 1);
            let r1 = right@.subrange(0, i + 1);
            assert(l1 =~= l0.push(a));
            assert(r1 =~= r0.push(b));
            if l1 == r1 {
                assert(l0 =~= l1.subrange(0, i as int));
                assert(r0 =~= r1.subrange(0, i as int));
                assert(l1[i as int] == r1[i as int]);
            }
        }
        i += 1;
    }
    proof {
        assert(left@.subrange(0, left@.len() as int) =~= left@);
        assert(right@.subrange(0, right@.len() as int) =~= right@);
    }
    difference == 0
}

/// Overwrites every byte of `buffer` with zero.
pub fn wipe(buffer: &mut Vec<u8>)
    ensures
        final(buffer)@ == Seq::new(old(buffer)@.len(), |i: int| 0u8),
{
    let mut i: usize = 0;
    while i < buffer.len()
        invariant
            i <= buffer@.len(),
            buffer@.len() == old(buffer)@.len(),
            forall|k: int| 0 <= k < i ==> buffer@[k] == 0u8,
        decreases buffer@.len() - i,
    {
        buffer.set(i, 0u8);
        i += 1;
    }
}

/// Whether some byte of `bytes` is zero.
pub fn holds_nul(bytes: &[u8]) -> (found: bool)
    ensures
        found == !crate::primitives::free_of_nul(bytes@),
{
    let mut i: usize = 0;
    while i < bytes.len()
        invariant
            i <= bytes@.len(),
            forall|k: int| 0 <= k < i ==> bytes@[k] != 0,
        decreases bytes@.len() - i,
    {
        if bytes[i] == 0 {
            return true;
        }
        i += 1;
    }
    false
}

} // verus!

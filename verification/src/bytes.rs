//! Byte-buffer primitives for handling secrets: comparison whose running
//! time does not depend on where two buffers differ, wiping, and XOR.

use vstd::prelude::*;

verus! {

/// The two byte values are combined without branching: the accumulator stays
/// zero exactly when it was zero and the two bytes agree.
proof fn lemma_fold_difference(acc: u8, x: u8, y: u8)
    ensures
        (acc | (x ^ y)) == 0u8 <==> (acc == 0u8 && x == y),
{
    assert((acc | (x ^ y)) == 0u8 <==> (acc == 0u8 && x == y)) by (bit_vector);
}

/// Compares two buffers for equality. Every byte of equal-length inputs is
/// visited, whatever the position of the first difference; only the lengths,
/// which are not secret, can end the comparison early.
pub fn ct_eq(a: &[u8], b: &[u8]) -> (same: bool)
    ensures
        same == (a@ == b@),
{
    if a.len() != b.len() {
        return false;
    }
    let n: usize = a.len();
    let mut acc: u8 = 0;
    let mut i: usize = 0;
    while i < n
        invariant
            n == a@.len(),
            n == b@.len(),
            i <= n,
            acc == 0u8 <==> a@.subrange(0, i as int) =~= b@.subrange(0, i as int),
        decreases n - i,
    {
        let ghost before = acc;
        acc = acc | (a[i] ^ b[i]);
        proof {
            lemma_fold_difference(before, a@[i as int], b@[i as int]);
            let pa = a@.subrange(0, i as int);
            let pb = b@.subrange(0, i as int);
            let qa = a@.subrange(0, i + 1);
            let qb = b@.subrange(0, i + 1);
            assert(qa == pa.push(a@[i as int]));
            assert(qb == pb.push(b@[i as int]));
            if qa == qb {
                assert(pa == qa.drop_last());
                assert(pb == qb.drop_last());
                assert(a@[i as int] == qa.last());
            }
        }
        i = i + 1;
    }
    proof {
        assert(a@.subrange(0, n as int) == a@);
        assert(b@.subrange(0, n as int) == b@);
    }
    acc == 0
}

/// Overwrites every byte of the buffer with zero, keeping its length.
pub fn wipe(buf: &mut Vec<u8>)
    ensures
        final(buf)@.len() == old(buf)@.len(),
        forall|i: int| 0 <= i < final(buf)@.len() ==> final(buf)@[i] == 0u8,
{
    let n: usize = buf.len();
    let mut i: usize = 0;
    while i < n
        invariant
            n == buf@.len(),
            n == old(buf)@.len(),
            i <= n,
            forall|j: int| 0 <= j < i ==> buf@[j] == 0u8,
        decreases n - i,
    {
        buf.set(i, 0u8);
        i = i + 1;
    }
}

/// Copies the bytes of `data` from `from` up to `to`.
pub fn copy_range(data: &[u8], from: usize, to: usize) -> (out: Vec<u8>)
    requires
        from <= to <= data@.len(),
    ensures
        out@ == data@.subrange(from as int, to as int),
{
    let mut out: Vec<u8> = Vec::with_capacity(to - from);
    let mut i: usize = from;
    while i < to
        invariant
            from <= i <= to,
            to <= data@.len(),
            out@ == data@.subrange(from as int, i as int),
        decreases to - i,
    {
        out.push(data[i]);
        assert(data@.subrange(from as int, i + 1) =~= data@.subrange(from as int, i as int).push(
            data@[i as int],
        ));
        i = i + 1;
    }
    out
}

/// The byte-wise XOR of two sequences of the same length.
pub open spec fn xor_seq(a: Seq<u8>, b: Seq<u8>) -> Seq<u8>
    recommends
        a.len() == b.len(),
{
    Seq::new(a.len(), |i: int| a[i] ^ b[i])
}

/// XOR with the same pad twice gives the input back.
pub proof fn lemma_xor_involution(a: Seq<u8>, pad: Seq<u8>)
    requires
        a.len() == pad.len(),
    ensures
        xor_seq(xor_seq(a, pad), pad) == a,
{
    assert forall|i: int| 0 <= i < a.len() implies xor_seq(xor_seq(a, pad), pad)[i] == a[i] by {
        let x = a[i];
        let p = pad[i];
        assert((x ^ p) ^ p == x) by (bit_vector);
    }
    assert(xor_seq(xor_seq(a, pad), pad) =~= a);
}

/// Returns the byte-wise XOR of `data` with the leading bytes of `pad`.
pub fn xor_bytes(data: &[u8], pad: &[u8]) -> (out: Vec<u8>)
    requires
        data@.len() == pad@.len(),
    ensures
        out@ == xor_seq(data@, pad@),
{
    let n: usize = data.len();
    let mut out: Vec<u8> = Vec::with_capacity(n);
    let mut i: usize = 0;
    while i < n
        invariant
            n == data@.len(),
            n == pad@.len(),
            i <= n,
            out@.len() == i,
            forall|j: int| 0 <= j < i ==> out@[j] == data@[j] ^ pad@[j],
        decreases n - i,
    {
        out.push(data[i] ^ pad[i]);
        i = i + 1;
    }
    assert(out@ =~= xor_seq(data@, pad@));
    out
}

} // verus!

//! Small byte-vector helpers shared by the parser, the handlers and the
//! dispatcher.

use vstd::prelude::*;

verus! {

/// Copies the bytes of `buf` between `start` and `end` into a fresh vector.
pub fn slice_range(buf: &Vec<u8>, start: usize, end: usize) -> (r: Vec<u8>)
    requires
        start <= end,
        end <= buf@.len(),
    ensures
        r@ == buf@.subrange(start as int, end as int),
{
    let mut r: Vec<u8> = Vec::new();
    let mut i: usize = start;
    while i < end
        invariant
            start <= i <= end <= buf@.len(),
            r@ == buf@.subrange(start as int, i as int),
        decreases end - i,
    {
        let b = buf[i];
        r.push(b);
        proof {
            assert(buf@.subrange(start as int, i + 1) =~= buf@.subrange(
                start as int,
                i as int,
            ).push(b));
        }
        i = i + 1;
    }
    r
}

/// Copies the bytes of `buf` from `start` on into a fresh vector.
pub fn suffix_from(buf: &Vec<u8>, start: usize) -> (r: Vec<u8>)
    requires
        start <= buf@.len(),
    ensures
        r@ == buf@.skip(start as int),
{
    let r = slice_range(buf, start, buf.len());
    proof {
        assert(buf@.subrange(start as int, buf@.len() as int) =~= buf@.skip(start as int));
    }
    r
}

/// Copies a byte vector.
pub fn copy_bytes(buf: &Vec<u8>) -> (r: Vec<u8>)
    ensures
        r@ == buf@,
{
    let r = suffix_from(buf, 0);
    proof {
        assert(buf@.skip(0) =~= buf@);
    }
    r
}

/// Appends the bytes of `src` to `dst`.
pub fn append_bytes(dst: &mut Vec<u8>, src: &Vec<u8>)
    ensures
        final(dst)@ == old(dst)@ + src@,
{
    let mut i: usize = 0;
    while i < src.len()
        invariant
            i <= src@.len(),
            dst@ == old(dst)@ + src@.subrange(0, i as int),
        decreases src@.len() - i,
    {
        let b = src[i];
        dst.push(b);
        proof {
            assert(old(dst)@ + src@.subrange(0, i + 1) =~= (old(dst)@ + src@.subrange(
                0,
                i as int,
            )).push(b));
        }
        i = i + 1;
    }
    proof {
        assert(src@.subrange(0, src@.len() as int) =~= src@);
    }
}

} // verus!

use vstd::prelude::*;

verus! {

/// Channel of a BGRA pixel that lands in channel `k` of the RGBA pixel.
pub open spec fn bgra_source(k: int) -> int {
    if k == 0 {
        2
    } else if k == 2 {
        0
    } else {
        k
    }
}

/// A packed BGRA buffer with blue and red exchanged in every pixel.
pub open spec fn swizzled(data: Seq<u8>) -> Seq<u8> {
    Seq::new(data.len(), |i: int| data[i - i % 4 + bgra_source(i % 4)])
}

/// Reorders packed BGRA pixels, as desktop capture APIs deliver them, into
/// packed RGBA.
pub fn bgra_to_rgba(data: &Vec<u8>) -> (r: Vec<u8>)
    requires
        data@.len() % 4 == 0,
    ensures
        r@ == swizzled(data@),
{
    let len: usize = data.len();
    let mut out: Vec<u8> = Vec::new();
    let mut i: usize = 0;
    while i < len
        invariant
            len == data@.len(),
            len % 4 == 0,
            i <= len,
            i % 4 == 0,
            out@.len() == i,
            forall|k: int| 0 <= k < i ==> #[trigger] out@[k] == swizzled(data@)[k],
        decreases len - i,
    {
        out.push(data[i + 2]);
        out.push(data[i + 1]);
        out.push(data[i]);
        out.push(data[i + 3]);
        proof {
            assert forall|k: int| 0 <= k < i + 4 implies #[trigger] out@[k] == swizzled(data@)[k] by {
                if k >= i {
                    assert(k - k % 4 == i);
                }
            }
        }
        i = i + 4;
    }
    assert(out@ =~= swizzled(data@));
    out
}

} // verus!

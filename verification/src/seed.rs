use vstd::prelude::*;

verus! {

/// The host-side upload payload: exactly `entries` elements, all zero.
pub open spec fn zero_words(entries: int) -> Seq<u32> {
    Seq::new(entries as nat, |i: int| 0u32)
}

/// Builds the host data buffer: `entries` zero-valued 32-bit elements.
pub fn zero_seed(entries: usize) -> (r: Vec<u32>)
    ensures
        r@ == zero_words(entries as int),
        r@.len() == entries,
        forall|i: int| 0 <= i < entries ==> r@[i] == 0u32,
{
    let mut v: Vec<u32> = Vec::with_capacity(entries);
    let mut k: usize = 0;
    while k < entries
        invariant
            k <= entries,
            v@.len() == k,
            forall|i: int| 0 <= i < k ==> v@[i] == 0u32,
        decreases entries - k,
    {
        v.push(0);
        k = k + 1;
    }
    proof {
        assert(v@ =~= zero_words(entries as int));
    }
    v
}

} // verus!

use vstd::prelude::*;

verus! {

/// Copies the initial values of the `.data` section (`sidata`, in flash) into
/// the section itself (`sdata`, in RAM), word by word.
pub fn init_data(sidata: &[u32], sdata: &mut [u32])
    requires
        old(sdata)@.len() <= sidata@.len(),
    ensures
        final(sdata)@ == sidata@.subrange(0, old(sdata)@.len() as int),
{
    let n = sdata.len();
    let mut i: usize = 0;
    while i < n
        invariant
            n == sdata@.len(),
            n == old(sdata)@.len(),
            n <= sidata@.len(),
            i <= n,
            forall|j: int| 0 <= j < i ==> sdata@[j] == sidata@[j],
        decreases n - i,
    {
        sdata[i] = sidata[i];
        i = i + 1;
    }
    assert(sdata@ =~= sidata@.subrange(0, n as int));
}

/// Clears the `.bss` section: every word becomes zero.
pub fn zero_bss(sbss: &mut [u32])
    ensures
        final(sbss)@ == Seq::new(old(sbss)@.len(), |j: int| 0u32),
{
    let n = sbss.len();
    let mut i: usize = 0;
    while i < n
        invariant
            n == sbss@.len(),
            n == old(sbss)@.len(),
            i <= n,
            forall|j: int| 0 <= j < i ==> sbss@[j] == 0u32,
        decreases n - i,
    {
        sbss[i] = 0;
        i = i + 1;
    }
    assert(sbss@ =~= Seq::new(n as nat, |j: int| 0u32));
}

} // verus!

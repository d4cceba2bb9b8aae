use vstd::prelude::*;

verus! {

/// Of the `available` samples about to be pushed, how many still belong to
/// the fade-in that follows a seek: that many leave `remaining`, and the
/// caller ramps them up before pushing.
pub fn take_fade_span(remaining: &mut usize, available: usize) -> (n: usize)
    ensures
        n == if *old(remaining) < available { *old(remaining) } else { available },
        *final(remaining) == *old(remaining) - n,
{
    let mut n: usize = 0;
    if *remaining > 0 && available > 0 {
        n = if *remaining < available { *remaining } else { available };
        *remaining = *remaining - n;
    }
    n
}

} // verus!

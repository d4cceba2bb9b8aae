use vstd::prelude::*;

verus! {

/// The mix buffer after `begin_block` prepared it for `needed` samples.
/// A buffer of the right length is cleared; otherwise it is only resized:
/// what it held stays in front, and new room is filled with `silence`.
pub open spec fn prepared_block<T>(old_buf: Seq<T>, needed: nat, silence: T) -> Seq<T> {
    if old_buf.len() == needed {
        Seq::new(needed, |_i: int| silence)
    } else if needed <= old_buf.len() {
        old_buf.subrange(0, needed as int)
    } else {
        old_buf + Seq::new((needed - old_buf.len()) as nat, |_i: int| silence)
    }
}

/// Prepares the mixer's scratch buffer for a block of `needed` samples.
pub fn begin_block<T: Copy>(temp_mix: &mut Vec<T>, needed: usize, silence: T)
    ensures
        final(temp_mix)@ == prepared_block(old(temp_mix)@, needed as nat, silence),
{
    let len = temp_mix.len();
    if len == needed {
        let mut i: usize = 0;
        while i < len
            invariant
                temp_mix@.len() == len,
                len == old(temp_mix)@.len(),
                0 <= i <= len,
                forall|k: int| 0 <= k < i ==> #[trigger] temp_mix@[k] == silence,
            decreases len - i,
        {
            temp_mix[i] = silence;
            i = i + 1;
        }
        assert(temp_mix@ =~= prepared_block(old(temp_mix)@, needed as nat, silence));
    } else if needed < len {
        temp_mix.truncate(needed);
    } else {
        let mut k = len;
        while k < needed
            invariant
                len == old(temp_mix)@.len(),
                len <= k <= needed,
                temp_mix@ =~= old(temp_mix)@ + Seq::new((k - len) as nat, |_i: int| silence),
            decreases needed - k,
        {
            temp_mix.push(silence);
            k = k + 1;
        }
    }
}

/// A prepared block always has room for exactly `needed` samples; what lies
/// past the old buffer is silence, and a buffer that already had the right
/// length starts silent throughout.
pub proof fn lemma_prepared_block_shape<T>(old_buf: Seq<T>, needed: nat, silence: T)
    ensures
        prepared_block(old_buf, needed, silence).len() == needed,
        forall|i: int| old_buf.len() <= i < needed ==> #[trigger] prepared_block(old_buf, needed, silence)[i] == silence,
        old_buf.len() == needed ==> forall|i: int| 0 <= i < needed ==> #[trigger] prepared_block(old_buf, needed, silence)[i] == silence,
{
}

} // verus!

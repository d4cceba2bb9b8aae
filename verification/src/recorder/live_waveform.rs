use vstd::prelude::*;

verus! {

/// Channel 0 of an interleaved stream: the first sample of every (possibly
/// partial) frame, `samples[0]`, `samples[channels]`, `samples[2 *
/// channels]`, ...; nothing when `channels` is 0.
pub open spec fn frame_heads_of<T>(samples: Seq<T>, channels: nat) -> Seq<T> {
    if channels == 0 {
        Seq::empty()
    } else {
        Seq::new(
            ((samples.len() + channels - 1) as nat) / channels,
            |k: int| samples[k * channels],
        )
    }
}

/// The samples of `block` that start a frame of the stream, when the block
/// begins at position `phase` within a frame of `channels` samples: those
/// at the indices `i` with `(phase + i) % channels == 0`, in order.
pub open spec fn stream_heads<T>(phase: nat, block: Seq<T>, channels: nat) -> Seq<T>
    decreases block.len(),
{
    if block.len() == 0 {
        Seq::empty()
    } else {
        let rest = stream_heads(phase, block.drop_last(), channels);
        if (phase + block.len() - 1) % (channels as int) == 0 {
            rest.push(block.last())
        } else {
            rest
        }
    }
}

/// Picks channel 0 out of one block of an interleaved stream that begins at
/// position `phase` within a frame: the samples that feed the live
/// waveform. Also returns the position within a frame at which the next
/// block begins, so that a frame split across blocks is counted once.
pub fn pick_heads<T: Copy>(phase: usize, block: &[T], channels: usize) -> (r: (Vec<T>, usize))
    requires
        channels > 0,
        phase < channels,
    ensures
        r.0@ == stream_heads(phase as nat, block@, channels as nat),
        r.1 == (phase + block@.len()) % (channels as int),
{
    let mut heads: Vec<T> = Vec::new();
    let mut pos: usize = phase;
    let mut i: usize = 0;
    let len = block.len();
    proof {
        vstd::arithmetic::div_mod::lemma_small_mod(phase as nat, channels as nat);
    }
    while i < len
        invariant
            channels > 0,
            len == block@.len(),
            0 <= i <= len,
            pos < channels,
            pos == (phase + i) % (channels as int),
            heads@ == stream_heads(phase as nat, block@.take(i as int), channels as nat),
        decreases len - i,
    {
        proof {
            assert(block@.take(i + 1).drop_last() =~= block@.take(i as int));
            assert(block@.take(i + 1).last() == block@[i as int]);
        }
        if pos == 0 {
            heads.push(block[i]);
        }
        proof {
            let c = channels as int;
            let x = phase + i;
            vstd::arithmetic::div_mod::lemma_add_mod_noop(x, 1, c);
            if c == 1 {
                assert(1int % c == 0);
            } else {
                vstd::arithmetic::div_mod::lemma_small_mod(1, c as nat);
            }
            if pos + 1 < c {
                vstd::arithmetic::div_mod::lemma_small_mod((pos + 1) as nat, c as nat);
            } else {
                vstd::arithmetic::div_mod::lemma_mod_self_0(c);
            }
        }
        pos = if pos + 1 == channels { 0 } else { pos + 1 };
        i = i + 1;
    }
    proof {
        assert(block@.take(len as int) =~= block@);
    }
    (heads, pos)
}

/// Picking channel 0 block by block, each block starting at the phase the
/// previous one left, gives what picking from the whole stream at once
/// gives: a frame split across two blocks is neither lost nor counted twice.
pub proof fn lemma_heads_across_blocks<T>(phase: nat, a: Seq<T>, b: Seq<T>, channels: nat)
    requires
        channels > 0,
    ensures
        stream_heads(phase, a + b, channels)
            == stream_heads(phase, a, channels) + stream_heads((phase + a.len()) % channels, b, channels),
    decreases b.len(),
{
    let c = channels as int;
    let q = (phase + a.len()) % channels;
    if b.len() == 0 {
        assert(a + b =~= a);
        assert(stream_heads(phase, a, channels) + Seq::<T>::empty() =~= stream_heads(phase, a, channels));
    } else {
        lemma_heads_across_blocks(phase, a, b.drop_last(), channels);
        assert((a + b).drop_last() =~= a + b.drop_last());
        assert((a + b).last() == b.last());
        let x = (phase + a.len()) as int;
        let y = (b.len() - 1) as int;
        assert(q as int == x % c);
        vstd::arithmetic::div_mod::lemma_add_mod_noop(x, y, c);
        vstd::arithmetic::div_mod::lemma_add_mod_noop(q as int, y, c);
        vstd::arithmetic::div_mod::lemma_mod_twice(x, c);
        assert(((q as int) % c + y % c) % c == (x % c + y % c) % c);
        assert((q + y) % c == (x + y) % c);
        assert((phase + (a + b).len() - 1) % c == (q + b.len() - 1) % c);
        let left = stream_heads(phase, a, channels);
        let right = stream_heads(q, b.drop_last(), channels);
        assert((left + right).push(b.last()) =~= left + right.push(b.last()));
    }
}

/// Picking from the start of a stream gives exactly its channel 0.
pub proof fn lemma_heads_from_start<T>(samples: Seq<T>, channels: nat)
    requires
        channels > 0,
    ensures
        stream_heads(0, samples, channels) == frame_heads_of(samples, channels),
    decreases samples.len(),
{
    let c = channels as int;
    let l = samples.len() as int;
    if l == 0 {
        vstd::arithmetic::div_mod::lemma_fundamental_div_mod_converse(c - 1, c, 0, c - 1);
        assert(frame_heads_of(samples, channels) =~= Seq::<T>::empty());
    } else {
        let prev = samples.drop_last();
        lemma_heads_from_start(prev, channels);
        let fp = frame_heads_of(prev, channels);
        let f = frame_heads_of(samples, channels);
        let m = l - 1;
        vstd::arithmetic::div_mod::lemma_fundamental_div_mod(m, c);
        let qm = m / c;
        let rm = m % c;
        assert(0 <= rm < c);
        if rm == 0 {
            assert((m + c - 1) / c == qm) by {
                assert(m + c - 1 == qm * c + (c - 1)) by (nonlinear_arith)
                    requires m == c * qm + rm, rm == 0;
                vstd::arithmetic::div_mod::lemma_fundamental_div_mod_converse(m + c - 1, c, qm, c - 1);
            }
            assert((l + c - 1) / c == qm + 1) by {
                assert(l + c - 1 == (qm + 1) * c + 0) by (nonlinear_arith)
                    requires m == c * qm + rm, rm == 0, l == m + 1;
                vstd::arithmetic::div_mod::lemma_fundamental_div_mod_converse(l + c - 1, c, qm + 1, 0);
            }
            assert(qm * c == m) by (nonlinear_arith)
                requires m == c * qm + rm, rm == 0;
            assert forall|k: int| 0 <= k < qm implies #[trigger] f[k] == fp[k] by {
                assert(k * c < m) by (nonlinear_arith)
                    requires k < qm, c > 0, qm * c == m;
                assert(k * c >= 0) by (nonlinear_arith)
                    requires k >= 0, c > 0;
            }
            assert(f =~= fp.push(samples.last()));
        } else {
            assert((m + c - 1) / c == qm + 1) by {
                assert(m + c - 1 == (qm + 1) * c + (rm - 1)) by (nonlinear_arith)
                    requires m == c * qm + rm;
                vstd::arithmetic::div_mod::lemma_fundamental_div_mod_converse(m + c - 1, c, qm + 1, rm - 1);
            }
            assert((l + c - 1) / c == qm + 1) by {
                assert(l + c - 1 == (qm + 1) * c + rm) by (nonlinear_arith)
                    requires m == c * qm + rm, l == m + 1;
                vstd::arithmetic::div_mod::lemma_fundamental_div_mod_converse(l + c - 1, c, qm + 1, rm);
            }
            assert forall|k: int| 0 <= k < qm + 1 implies #[trigger] f[k] == fp[k] by {
                assert(k * c <= qm * c) by (nonlinear_arith)
                    requires k <= qm, c > 0;
                assert(qm * c < m) by (nonlinear_arith)
                    requires m == c * qm + rm, rm > 0;
                assert(k * c >= 0) by (nonlinear_arith)
                    requires k >= 0, c > 0;
            }
            assert(f =~= fp);
        }
    }
}

} // verus!

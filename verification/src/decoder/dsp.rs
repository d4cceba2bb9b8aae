use vstd::prelude::*;

verus! {

/// The samples of channel `ch` in an interleaved buffer, one per whole frame.
pub open spec fn channel_samples<T>(interleaved: Seq<T>, channels: nat, ch: int) -> Seq<T> {
    Seq::new(interleaved.len() / channels, |f: int| interleaved[f * channels + ch])
}

proof fn lemma_frame_index(f: int, frames: int, channels: int, ch: int, len: int)
    requires
        0 <= f < frames,
        0 <= ch < channels,
        frames == len / channels,
        channels > 0,
        len >= 0,
    ensures
        0 <= f * channels + ch < len,
        (f + 1) * channels <= len,
{
    assert(frames * channels <= len) by (nonlinear_arith)
        requires frames == len / channels, channels > 0, len >= 0;
    assert((f + 1) * channels <= frames * channels) by (nonlinear_arith)
        requires f + 1 <= frames, channels > 0;
    assert(0 <= f * channels) by (nonlinear_arith)
        requires f >= 0, channels > 0;
    assert(f * channels + ch < (f + 1) * channels) by (nonlinear_arith)
        requires ch < channels;
}

/// Splits the whole frames of an interleaved buffer into its channels,
/// appending channel `ch` to `planar[ch]` for each `ch < channels`. A
/// trailing partial frame is ignored.
pub fn append_interleaved_to_planar<T: Copy>(interleaved: &[T], planar: &mut [Vec<T>], channels: usize)
    requires
        channels > 0,
        interleaved@.len() / (channels as nat) > 0 ==> old(planar)@.len() >= channels,
    ensures
        final(planar)@.len() == old(planar)@.len(),
        forall|ch: int| 0 <= ch < old(planar)@.len() ==>
            #[trigger] final(planar)@[ch]@ == if ch < channels && interleaved@.len() / (channels as nat) > 0 {
                old(planar)@[ch]@ + channel_samples(interleaved@, channels as nat, ch)
            } else {
                old(planar)@[ch]@
            },
{
    let len = interleaved.len();
    let frames = len / channels;
    if frames == 0 {
        proof {
            assert forall|ch: int| 0 <= ch < old(planar)@.len() implies
                #[trigger] planar@[ch]@ == old(planar)@[ch]@ by {}
        }
        return;
    }
    let ghost n = planar@.len();
    let ghost whole = interleaved@;
    let mut f: usize = 0;
    while f < frames
        invariant
            channels > 0,
            frames == whole.len() / (channels as nat),
            frames > 0,
            whole == interleaved@,
            len == whole.len(),
            n == old(planar)@.len(),
            n >= channels,
            planar@.len() == n,
            0 <= f <= frames,
            forall|c: int| 0 <= c < n ==>
                #[trigger] planar@[c]@ == if c < channels {
                    old(planar)@[c]@ + channel_samples(whole, channels as nat, c).take(f as int)
                } else {
                    old(planar)@[c]@
                },
        decreases frames - f,
    {
        let mut ch: usize = 0;
        while ch < channels
            invariant
                channels > 0,
                frames == whole.len() / (channels as nat),
                whole == interleaved@,
                len == whole.len(),
                n == old(planar)@.len(),
                n >= channels,
                planar@.len() == n,
                0 <= f < frames,
                0 <= ch <= channels,
                forall|c: int| 0 <= c < n ==>
                    #[trigger] planar@[c]@ == if c < ch {
                        old(planar)@[c]@ + channel_samples(whole, channels as nat, c).take(f + 1)
                    } else if c < channels {
                        old(planar)@[c]@ + channel_samples(whole, channels as nat, c).take(f as int)
                    } else {
                        old(planar)@[c]@
                    },
            decreases channels - ch,
        {
            proof {
                lemma_frame_index(f as int, frames as int, channels as int, ch as int, len as int);
            }
            let v = interleaved[f * channels + ch];
            let ghost before = planar@;
            planar[ch].push(v);
            proof {
                let cs = channel_samples(whole, channels as nat, ch as int);
                assert(cs.take(f + 1) =~= cs.take(f as int).push(v));
                assert forall|c: int| 0 <= c < n implies
                    #[trigger] planar@[c]@ == if c < ch + 1 {
                        old(planar)@[c]@ + channel_samples(whole, channels as nat, c).take(f + 1)
                    } else if c < channels {
                        old(planar)@[c]@ + channel_samples(whole, channels as nat, c).take(f as int)
                    } else {
                        old(planar)@[c]@
                    } by {
                    if c == ch {
                        assert(planar@[c]@ == before[c]@.push(v));
                    } else {
                        assert(planar@[c] == before[c]);
                    }
                }
            }
            ch = ch + 1;
        }
        f = f + 1;
    }
    proof {
        assert forall|c: int| 0 <= c < n && c < channels implies
            channel_samples(whole, channels as nat, c).take(frames as int)
                =~= channel_samples(whole, channels as nat, c) by {}
    }
}

/// `m` is the length of the shortest channel (0 when there is no channel).
pub open spec fn is_shortest_len<T>(planar: Seq<Vec<T>>, m: nat) -> bool {
    if planar.len() == 0 {
        m == 0
    } else {
        &&& exists|i: int| 0 <= i < planar.len() && m == (#[trigger] planar[i])@.len()
        &&& forall|i: int| 0 <= i < planar.len() ==> m <= (#[trigger] planar[i])@.len()
    }
}

/// The number of whole frames held by a planar buffer: the length of its
/// shortest channel, 0 when it has no channel.
pub fn planar_len<T>(planar: &[Vec<T>]) -> (m: usize)
    ensures
        is_shortest_len(planar@, m as nat),
{
    let n = planar.len();
    if n == 0 {
        return 0;
    }
    let mut m = planar[0].len();
    let mut i: usize = 1;
    while i < n
        invariant
            n == planar@.len(),
            n > 0,
            1 <= i <= n,
            exists|k: int| 0 <= k < i && m == (#[trigger] planar@[k])@.len(),
            forall|k: int| 0 <= k < i ==> m <= (#[trigger] planar@[k])@.len(),
        decreases n - i,
    {
        if planar[i].len() < m {
            m = planar[i].len();
        }
        i = i + 1;
    }
    m
}

/// How many frames `take_from_planar` takes from a channel of length `len`.
pub open spec fn taken(len: nat, frames: nat) -> int {
    if frames < len { frames as int } else { len as int }
}

/// Removes up to `frames` samples from the front of every channel and
/// returns them, channel by channel.
pub fn take_from_planar<T>(planar: &mut [Vec<T>], frames: usize) -> (out: Vec<Vec<T>>)
    ensures
        final(planar)@.len() == old(planar)@.len(),
        out@.len() == old(planar)@.len(),
        forall|ch: int| 0 <= ch < old(planar)@.len() ==> {
            let n = taken(old(planar)@[ch]@.len(), frames as nat);
            &&& (#[trigger] out@[ch])@ == old(planar)@[ch]@.take(n)
            &&& final(planar)@[ch]@ == old(planar)@[ch]@.skip(n)
        },
{
    let channels = planar.len();
    let mut out: Vec<Vec<T>> = Vec::with_capacity(channels);
    let mut ch: usize = 0;
    while ch < channels
        invariant
            channels == old(planar)@.len(),
            planar@.len() == channels,
            out@.len() == ch,
            0 <= ch <= channels,
            forall|c: int| 0 <= c < ch ==> {
                let n = taken(old(planar)@[c]@.len(), frames as nat);
                &&& (#[trigger] out@[c])@ == old(planar)@[c]@.take(n)
                &&& planar@[c]@ == old(planar)@[c]@.skip(n)
            },
            forall|c: int| ch <= c < channels ==> #[trigger] planar@[c] == old(planar)@[c],
        decreases channels - ch,
    {
        let len = planar[ch].len();
        let n = if frames < len { frames } else { len };
        let mut head = planar[ch].split_off(n);
        std::mem::swap(&mut head, &mut planar[ch]);
        out.push(head);
        ch = ch + 1;
    }
    out
}

/// The interleaved layout of the first `frames` samples of every channel:
/// sample `i` is frame `i / channels` of channel `i % channels`.
pub open spec fn interleaved_of<T>(planar: Seq<Vec<T>>, frames: nat) -> Seq<T> {
    Seq::new(frames * planar.len(), |i: int| planar[i % (planar.len() as int)]@[i / (planar.len() as int)])
}

proof fn lemma_interleaved_slot(f: int, c: int, channels: int)
    requires
        0 <= f,
        0 <= c < channels,
    ensures
        (f * channels + c) % channels == c,
        (f * channels + c) / channels == f,
{
    vstd::arithmetic::div_mod::lemma_fundamental_div_mod_converse(f * channels + c, channels, f, c);
}

/// Interleaves a planar buffer: as many frames as its first channel holds,
/// frame by frame, channel by channel.
pub fn interleave<T: Copy>(planar: &mut [Vec<T>]) -> (out: Vec<T>)
    requires
        old(planar)@.len() > 0 ==> {
            &&& forall|c: int| 0 <= c < old(planar)@.len() ==>
                (#[trigger] old(planar)@[c])@.len() >= old(planar)@[0]@.len()
            &&& old(planar)@[0]@.len() * old(planar)@.len() <= usize::MAX
        },
    ensures
        final(planar)@ == old(planar)@,
        old(planar)@.len() == 0 ==> out@.len() == 0,
        old(planar)@.len() > 0 ==> out@ == interleaved_of(old(planar)@, old(planar)@[0]@.len()),
{
    let channels = planar.len();
    if channels == 0 {
        return Vec::new();
    }
    let frames = planar[0].len();
    let ghost p = planar@;
    let ghost target = interleaved_of(p, frames as nat);
    proof {
        assert(frames * channels <= usize::MAX) by (nonlinear_arith)
            requires frames * channels == p[0]@.len() * p.len(), p[0]@.len() * p.len() <= usize::MAX;
    }
    let mut out: Vec<T> = Vec::with_capacity(frames * channels);
    let mut f: usize = 0;
    while f < frames
        invariant
            planar@ == p,
            channels == p.len(),
            channels > 0,
            frames == p[0]@.len(),
            forall|c: int| 0 <= c < channels ==> (#[trigger] p[c])@.len() >= frames,
            target == interleaved_of(p, frames as nat),
            0 <= f <= frames,
            out@.len() == f * channels,
            forall|i: int| 0 <= i < out@.len() ==> #[trigger] out@[i] == target[i],
        decreases frames - f,
    {
        let mut c: usize = 0;
        while c < channels
            invariant
                planar@ == p,
                channels == p.len(),
                channels > 0,
                frames == p[0]@.len(),
                forall|c2: int| 0 <= c2 < channels ==> (#[trigger] p[c2])@.len() >= frames,
                target == interleaved_of(p, frames as nat),
                0 <= f < frames,
                0 <= c <= channels,
                out@.len() == f * channels + c,
                forall|i: int| 0 <= i < out@.len() ==> #[trigger] out@[i] == target[i],
            decreases channels - c,
        {
            proof {
                lemma_interleaved_slot(f as int, c as int, channels as int);
                assert(f * channels + c < frames * channels) by (nonlinear_arith)
                    requires f < frames, c < channels;
            }
            let v = planar[c][f];
            out.push(v);
            c = c + 1;
        }
        proof {
            assert((f + 1) * channels == f * channels + channels) by (nonlinear_arith);
        }
        f = f + 1;
    }
    proof {
        assert(out@ =~= target);
    }
    out
}

/// Interleaving the channels that `append_interleaved_to_planar` split off
/// an interleaved buffer gives back its whole frames.
pub proof fn lemma_planar_round_trip<T>(x: Seq<T>, planar: Seq<Vec<T>>, channels: nat)
    requires
        channels > 0,
        planar.len() == channels,
        forall|c: int| 0 <= c < channels ==> (#[trigger] planar[c])@ == channel_samples(x, channels, c),
    ensures
        interleaved_of(planar, x.len() / channels) == x.take(((x.len() / channels) * channels) as int),
{
    let frames = x.len() / channels;
    let lhs = interleaved_of(planar, frames);
    let rhs = x.take((frames * channels) as int);
    assert(frames * channels <= x.len()) by (nonlinear_arith)
        requires frames == x.len() / channels, channels > 0;
    assert forall|i: int| 0 <= i < lhs.len() implies lhs[i] == rhs[i] by {
        let c = i % (channels as int);
        let f = i / (channels as int);
        vstd::arithmetic::div_mod::lemma_fundamental_div_mod(i, channels as int);
        assert(0 <= c < channels);
        assert(0 <= f < frames) by (nonlinear_arith)
            requires i == channels * f + c, 0 <= c < channels, 0 <= i < frames * channels, channels > 0;
        assert(f * channels + c == i) by (nonlinear_arith)
            requires i == channels * f + c;
    }
    assert(lhs =~= rhs);
}

/// Taking frames from a planar buffer loses nothing: what was taken,
/// followed by what remains, is the channel as it was.
pub proof fn lemma_take_then_rest<T>(channel: Seq<T>, n: int)
    requires
        0 <= n <= channel.len(),
    ensures
        channel.take(n) + channel.skip(n) == channel,
{
    assert(channel.take(n) + channel.skip(n) =~= channel);
}

/// The interleaved layout after routing `in_ch` input channels to `out_ch`
/// output channels, output channel `oc` taking input channel `oc % in_ch`.
pub open spec fn upmixed<T>(input: Seq<T>, in_ch: nat, out_ch: nat) -> Seq<T> {
    Seq::new(
        (input.len() / in_ch) * out_ch,
        |i: int| input[(i / (out_ch as int)) * (in_ch as int) + (i % (out_ch as int)) % (in_ch as int)],
    )
}

/// Changes the channel count of an interleaved buffer when the count does
/// not shrink: the same count gives back the buffer unchanged; more output
/// channels repeat the input channels in turn (mono becomes stereo by
/// doubling). A trailing partial frame is dropped when the count grows.
/// Equal counts need no channel at all: zero channels also copy.
pub fn upmix_interleaved<T: Copy>(input: &[T], in_ch: usize, out_ch: usize) -> (out: Vec<T>)
    requires
        out_ch >= in_ch,
        in_ch < out_ch ==> in_ch > 0 && (input@.len() / (in_ch as nat)) * out_ch <= usize::MAX,
    ensures
        in_ch == out_ch ==> out@ == input@,
        in_ch < out_ch ==> out@ == upmixed(input@, in_ch as nat, out_ch as nat),
{
    if in_ch == out_ch {
        let mut copy: Vec<T> = Vec::with_capacity(input.len());
        let mut i: usize = 0;
        while i < input.len()
            invariant
                0 <= i <= input@.len(),
                copy@ == input@.take(i as int),
            decreases input@.len() - i,
        {
            copy.push(input[i]);
            proof {
                assert(input@.take(i + 1) =~= input@.take(i as int).push(input@[i as int]));
            }
            i = i + 1;
        }
        proof {
            assert(input@.take(input@.len() as int) =~= input@);
        }
        return copy;
    }
    let len = input.len();
    let frames = len / in_ch;
    let ghost target = upmixed(input@, in_ch as nat, out_ch as nat);
    let mut out: Vec<T> = Vec::with_capacity(frames * out_ch);
    let mut f: usize = 0;
    while f < frames
        invariant
            in_ch > 0,
            out_ch > in_ch,
            len == input@.len(),
            frames == len / in_ch,
            frames * out_ch <= usize::MAX,
            target == upmixed(input@, in_ch as nat, out_ch as nat),
            0 <= f <= frames,
            out@.len() == f * out_ch,
            forall|i: int| 0 <= i < out@.len() ==> #[trigger] out@[i] == target[i],
        decreases frames - f,
    {
        let mut oc: usize = 0;
        while oc < out_ch
            invariant
                in_ch > 0,
                out_ch > in_ch,
                len == input@.len(),
                frames == len / in_ch,
                frames * out_ch <= usize::MAX,
                target == upmixed(input@, in_ch as nat, out_ch as nat),
                0 <= f < frames,
                0 <= oc <= out_ch,
                out@.len() == f * out_ch + oc,
                forall|i: int| 0 <= i < out@.len() ==> #[trigger] out@[i] == target[i],
            decreases out_ch - oc,
        {
            let ic = oc % in_ch;
            proof {
                lemma_interleaved_slot(f as int, oc as int, out_ch as int);
                lemma_frame_index(f as int, frames as int, in_ch as int, ic as int, len as int);
                assert(f * out_ch + oc < frames * out_ch) by (nonlinear_arith)
                    requires f < frames, oc < out_ch;
            }
            let v = input[f * in_ch + ic];
            out.push(v);
            oc = oc + 1;
        }
        proof {
            assert((f + 1) * out_ch == f * out_ch + out_ch) by (nonlinear_arith);
        }
        f = f + 1;
    }
    proof {
        assert(out@ =~= target);
    }
    out
}

/// The number of samples that a fade of `ms` milliseconds lasts at
/// `sample_rate` (rounded down, as `usize` holds it).
pub fn fade_samples_ms(sample_rate: u32, ms: u32) -> (n: usize)
    ensures
        n == ((sample_rate as u64 * ms as u64) / 1000) as usize,
{
    proof {
        assert(sample_rate as u64 * ms as u64 <= u64::MAX) by (nonlinear_arith)
            requires sample_rate <= u32::MAX, ms <= u32::MAX;
    }
    ((sample_rate as u64 * ms as u64) / 1000) as usize
}

/// Routing channels keeps every whole input frame: output frame `f` holds,
/// on output channel `oc`, input channel `oc % in_ch` of input frame `f`;
/// so mono becomes stereo by doubling each sample.
pub proof fn lemma_upmix_frames<T>(input: Seq<T>, in_ch: nat, out_ch: nat, f: int, oc: int)
    requires
        in_ch > 0,
        out_ch > 0,
        0 <= f < input.len() / in_ch,
        0 <= oc < out_ch,
    ensures
        upmixed(input, in_ch, out_ch).len() == (input.len() / in_ch) * out_ch,
        upmixed(input, in_ch, out_ch)[f * out_ch + oc] == input[f * in_ch + oc % (in_ch as int)],
{
    let o = out_ch as int;
    assert(f * o + oc < (input.len() / in_ch) * o) by (nonlinear_arith)
        requires f + 1 <= input.len() / in_ch, oc < o, 0 <= oc;
    assert(f * o + oc >= 0) by (nonlinear_arith)
        requires f >= 0, o > 0, oc >= 0;
    assert(f * o + oc == o * f + oc) by (nonlinear_arith);
    vstd::arithmetic::div_mod::lemma_fundamental_div_mod_converse(f * o + oc, o, f, oc);
}

} // verus!

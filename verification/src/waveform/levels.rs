use vstd::prelude::*;

verus! {

/// One level of a waveform overview: per channel, the lowest and highest
/// sample of every bin.
pub struct WaveformLevel<T> {
    pub min: Vec<Vec<T>>,
    pub max: Vec<Vec<T>>,
}

/// `next` halves `prev`: neighbouring bins `2i` and `2i + 1` merge through
/// `f`, and a last unpaired bin is carried over as it is.
pub open spec fn halved<T, F: Fn(T, T) -> T>(prev: Seq<T>, next: Seq<T>, f: F) -> bool {
    &&& next.len() == (prev.len() + 1) / 2
    &&& forall|i: int| 0 <= i < next.len() ==> {
        &&& 2 * i + 1 < prev.len() ==> f.ensures((prev[2 * i], prev[2 * i + 1]), #[trigger] next[i])
        &&& 2 * i + 1 == prev.len() ==> next[i] == prev[2 * i]
    }
}

/// The first `n` entries of `s`.
pub open spec fn first<T>(s: Seq<T>, n: int) -> Seq<T> {
    s.subrange(0, n)
}

/// Merges neighbouring bins: lows through `lower`, highs through `upper`;
/// the low bins decide how many there are.
pub fn halve_bins<T: Copy, Fmin: Fn(T, T) -> T, Fmax: Fn(T, T) -> T>(
    mins: &Vec<T>,
    maxs: &Vec<T>,
    lower: &Fmin,
    upper: &Fmax,
) -> (out: (Vec<T>, Vec<T>))
    requires
        maxs@.len() >= mins@.len(),
        forall|a: T, b: T| lower.requires((a, b)),
        forall|a: T, b: T| upper.requires((a, b)),
    ensures
        halved(mins@, out.0@, *lower),
        halved(first(maxs@, mins@.len() as int), out.1@, *upper),
{
    let n = mins.len();
    let ghost pm = mins@;
    let ghost px = first(maxs@, n as int);
    let mut next_min: Vec<T> = Vec::new();
    let mut next_max: Vec<T> = Vec::new();
    let mut i: usize = 0;
    while i + 1 < n
        invariant
            n == mins@.len(),
            pm == mins@,
            px == first(maxs@, n as int),
            maxs@.len() >= n,
            forall|a: T, b: T| lower.requires((a, b)),
            forall|a: T, b: T| upper.requires((a, b)),
            i % 2 == 0,
            i <= n,
            next_min@.len() == i / 2,
            next_max@.len() == i / 2,
            forall|k: int| 0 <= k < i / 2 ==> lower.ensures((pm[2 * k], pm[2 * k + 1]), #[trigger] next_min@[k]),
            forall|k: int| 0 <= k < i / 2 ==> upper.ensures((px[2 * k], px[2 * k + 1]), #[trigger] next_max@[k]),
        decreases n - i,
    {
        let m = lower(mins[i], mins[i + 1]);
        let x = upper(maxs[i], maxs[i + 1]);
        next_min.push(m);
        next_max.push(x);
        i = i + 2;
    }
    if i < n {
        next_min.push(mins[i]);
        next_max.push(maxs[i]);
    }
    proof {
        assert(next_min@.len() == (n + 1) / 2);
        assert forall|k: int| 0 <= k < next_min@.len() implies {
            &&& 2 * k + 1 < pm.len() ==> lower.ensures((pm[2 * k], pm[2 * k + 1]), #[trigger] next_min@[k])
            &&& 2 * k + 1 == pm.len() ==> next_min@[k] == pm[2 * k]
        } by {}
        assert forall|k: int| 0 <= k < next_max@.len() implies {
            &&& 2 * k + 1 < px.len() ==> upper.ensures((px[2 * k], px[2 * k + 1]), #[trigger] next_max@[k])
            &&& 2 * k + 1 == px.len() ==> next_max@[k] == px[2 * k]
        } by {}
    }
    (next_min, next_max)
}

/// The number of bins of a level (those of its first channel).
pub open spec fn bins_of<T>(lv: WaveformLevel<T>) -> nat {
    lv.min@[0]@.len()
}

/// A level with at least `channels` channels whose high bins are at least
/// as many as its low bins.
pub open spec fn level_ok<T>(lv: WaveformLevel<T>, channels: nat) -> bool {
    &&& lv.min@.len() >= channels
    &&& lv.max@.len() >= channels
    &&& forall|c: int| 0 <= c < channels ==> (#[trigger] lv.max@[c])@.len() >= lv.min@[c]@.len()
}

/// `next` is `prev` with every one of the first `channels` channels halved.
pub open spec fn halves_level<T, Fmin: Fn(T, T) -> T, Fmax: Fn(T, T) -> T>(
    prev: WaveformLevel<T>,
    next: WaveformLevel<T>,
    channels: nat,
    lower: Fmin,
    upper: Fmax,
) -> bool {
    &&& next.min@.len() == channels
    &&& next.max@.len() == channels
    &&& forall|c: int| 0 <= c < channels ==> {
        &&& halved(prev.min@[c]@, (#[trigger] next.min@[c])@, lower)
        &&& halved(first(prev.max@[c]@, prev.min@[c]@.len() as int), next.max@[c]@, upper)
    }
}

/// `levels` is the overview pyramid: each level halves the one before, and
/// halving goes on while the level before last still had more than three
/// bins (the first step is taken whenever level 0 has more than one bin).
pub open spec fn is_pyramid<T, Fmin: Fn(T, T) -> T, Fmax: Fn(T, T) -> T>(
    levels: Seq<WaveformLevel<T>>,
    channels: nat,
    lower: Fmin,
    upper: Fmax,
) -> bool {
    &&& levels.len() >= 1
    &&& forall|k: int| 0 <= k < levels.len() - 1 ==> {
        &&& halves_level(levels[k], #[trigger] levels[k + 1], channels, lower, upper)
        &&& bins_of(levels[k]) > 1
        &&& k >= 1 ==> bins_of(levels[k - 1]) / 2 > 1
    }
    &&& levels.len() == 1 ==> bins_of(levels[0]) <= 1
    &&& levels.len() >= 2 ==> bins_of(levels[levels.len() - 2]) / 2 <= 1
}

/// Builds the overview pyramid on top of level 0: each further level merges
/// neighbouring bins (lows through `lower`, highs through `upper`), until
/// a level of one bin, or the level after one of two or three bins.
pub fn build_mipmap_levels<T: Copy, Fmin: Fn(T, T) -> T, Fmax: Fn(T, T) -> T>(
    channels: usize,
    lvl0_min: Vec<Vec<T>>,
    lvl0_max: Vec<Vec<T>>,
    lower: &Fmin,
    upper: &Fmax,
) -> (levels: Vec<WaveformLevel<T>>)
    requires
        channels >= 1,
        level_ok(WaveformLevel { min: lvl0_min, max: lvl0_max }, channels as nat),
        forall|a: T, b: T| lower.requires((a, b)),
        forall|a: T, b: T| upper.requires((a, b)),
    ensures
        levels@.len() >= 1,
        levels@[0].min == lvl0_min,
        levels@[0].max == lvl0_max,
        is_pyramid(levels@, channels as nat, *lower, *upper),
{
    let ghost l0 = WaveformLevel { min: lvl0_min, max: lvl0_max };
    let mut levels: Vec<WaveformLevel<T>> = Vec::new();
    levels.push(WaveformLevel { min: lvl0_min, max: lvl0_max });
    loop
        invariant_except_break
            channels >= 1,
            forall|a: T, b: T| lower.requires((a, b)),
            forall|a: T, b: T| upper.requires((a, b)),
            levels@.len() >= 1,
            levels@[0] == l0,
            level_ok(levels@[levels@.len() - 1], channels as nat),
            forall|k: int| 0 <= k < levels@.len() - 1 ==> {
                &&& halves_level(levels@[k], #[trigger] levels@[k + 1], channels as nat, *lower, *upper)
                &&& bins_of(levels@[k]) > 1
                &&& k >= 1 ==> bins_of(levels@[k - 1]) / 2 > 1
            },
            levels@.len() >= 2 ==> bins_of(levels@[levels@.len() - 2]) / 2 > 1,
        ensures
            levels@.len() >= 1,
            levels@[0] == l0,
            is_pyramid(levels@, channels as nat, *lower, *upper),
        decreases bins_of(levels@[levels@.len() - 1]),
    {
        let last = levels.len() - 1;
        let bins = levels[last].min[0].len();
        if bins <= 1 {
            proof {
                if last >= 1 {
                    let k = last - 1;
                    assert(halves_level(levels@[k as int], levels@[k + 1], channels as nat, *lower, *upper));
                    assert(halved(levels@[k as int].min@[0]@, levels@[k + 1].min@[0]@, *lower));
                }
            }
            break;
        }
        let next_bins = bins / 2;
        let mut next_min: Vec<Vec<T>> = Vec::new();
        let mut next_max: Vec<Vec<T>> = Vec::new();
        let mut c: usize = 0;
        while c < channels
            invariant
                last == levels@.len() - 1,
                level_ok(levels@[last as int], channels as nat),
                forall|a: T, b: T| lower.requires((a, b)),
                forall|a: T, b: T| upper.requires((a, b)),
                0 <= c <= channels,
                next_min@.len() == c,
                next_max@.len() == c,
                forall|j: int| 0 <= j < c ==> {
                    &&& halved(levels@[last as int].min@[j]@, (#[trigger] next_min@[j])@, *lower)
                    &&& halved(
                        first(levels@[last as int].max@[j]@, levels@[last as int].min@[j]@.len() as int),
                        next_max@[j]@,
                        *upper,
                    )
                },
            decreases channels - c,
        {
            let (m, x) = halve_bins(&levels[last].min[c], &levels[last].max[c], lower, upper);
            next_min.push(m);
            next_max.push(x);
            c = c + 1;
        }
        let ghost prev = levels@[last as int];
        let next = WaveformLevel { min: next_min, max: next_max };
        proof {
            assert(halves_level(prev, next, channels as nat, *lower, *upper));
            assert forall|j: int| 0 <= j < channels implies (#[trigger] next.max@[j])@.len() >= next.min@[j]@.len() by {
                assert(next.min@[j]@.len() == (prev.min@[j]@.len() + 1) / 2);
            }
            assert(bins_of(next) == (bins + 1) / 2);
        }
        levels.push(next);
        if next_bins <= 1 {
            break;
        }
    }
    levels
}

} // verus!

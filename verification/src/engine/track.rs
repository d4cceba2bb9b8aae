use vstd::prelude::*;

verus! {

/// Identifier for a track.
#[derive(Clone, Copy, Debug, PartialEq, Eq, Hash, Structural)]
pub struct TrackId(pub u32);

/// Transport state of a single track.
#[derive(Clone, Copy, Debug, PartialEq, Eq, Structural)]
pub enum TrackState {
    Stopped,
    Playing,
    Paused,
}

/// A single track: its routing flags and transport state, together with the
/// source that produces its audio (decoder, gain, pan, ...).
pub struct Track<S> {
    pub id: TrackId,
    pub muted: bool,
    pub solo: bool,
    /// Change it through `set_state`, and hand the flag it returns to the
    /// source.
    pub state: TrackState,
    pub source: S,
}

/// `t` with its routing flags replaced.
pub open spec fn routed<S>(t: Track<S>, muted: bool, solo: bool) -> Track<S> {
    Track { id: t.id, muted, solo, state: t.state, source: t.source }
}

/// `t` with its transport state replaced.
pub open spec fn in_state<S>(t: Track<S>, st: TrackState) -> Track<S> {
    Track { id: t.id, muted: t.muted, solo: t.solo, state: st, source: t.source }
}

/// The track that `Track::new` builds.
pub open spec fn fresh_track<S>(id: TrackId, source: S) -> Track<S> {
    Track { id, muted: false, solo: false, state: TrackState::Stopped, source }
}

impl<S> Track<S> {
    /// A new track starts stopped, unmuted and not soloed.
    pub fn new(id: TrackId, source: S) -> (t: Self)
        ensures
            t == fresh_track(id, source),
    {
        Track { id, muted: false, solo: false, state: TrackState::Stopped, source }
    }

    pub fn state(&self) -> (st: TrackState)
        ensures
            st == self.state,
    {
        self.state
    }
}

impl<S> Track<S> {
    /// Sets the transport state and returns whether the track's source
    /// should now play; the caller hands that flag to the source.
    pub fn set_state(&mut self, st: TrackState) -> (playing: bool)
        ensures
            *final(self) == in_state(*old(self), st),
            playing == (st == TrackState::Playing),
    {
        self.state = st;
        st == TrackState::Playing
    }
}

/// Every track's id is its position in the list.
pub open spec fn ids_are_positions<S>(tracks: Seq<Track<S>>) -> bool {
    forall|i: int| 0 <= i < tracks.len() ==> (#[trigger] tracks[i]).id.0 == i
}

/// Appends a new track fed by `source`. Its id is the number of tracks that
/// were there before, taken modulo 2^32 as `u32` holds it.
pub fn add_track<S>(tracks: &mut Vec<Track<S>>, source: S) -> (id: TrackId)
    ensures
        id == TrackId(old(tracks)@.len() as u32),
        final(tracks)@ == old(tracks)@.push(fresh_track(id, source)),
{
    let id = TrackId(tracks.len() as u32);
    tracks.push(Track::new(id, source));
    id
}

/// Puts every track in state `st` (the engine's play and pause) and returns
/// whether the sources should now play; the caller hands that flag to every
/// track's source.
pub fn set_all_states<S>(tracks: &mut Vec<Track<S>>, st: TrackState) -> (playing: bool)
    ensures
        playing == (st == TrackState::Playing),
        final(tracks)@.len() == old(tracks)@.len(),
        forall|i: int| 0 <= i < old(tracks)@.len() ==>
            #[trigger] final(tracks)@[i] == in_state(old(tracks)@[i], st),
{
    let n = tracks.len();
    let mut i: usize = 0;
    while i < n
        invariant
            n == old(tracks)@.len(),
            tracks@.len() == n,
            0 <= i <= n,
            forall|k: int| 0 <= k < i ==> #[trigger] tracks@[k] == in_state(old(tracks)@[k], st),
            forall|k: int| i <= k < n ==> #[trigger] tracks@[k] == old(tracks)@[k],
        decreases n - i,
    {
        tracks[i].set_state(st);
        i = i + 1;
    }
    st == TrackState::Playing
}

/// Adding a track keeps every id equal to its position, as long as the
/// count still fits in a `u32`.
pub proof fn lemma_add_track_keeps_ids<S>(tracks: Seq<Track<S>>, source: S)
    requires
        ids_are_positions(tracks),
        tracks.len() <= u32::MAX,
    ensures
        ids_are_positions(tracks.push(fresh_track(TrackId(tracks.len() as u32), source))),
{
    let t2 = tracks.push(fresh_track(TrackId(tracks.len() as u32), source));
    assert forall|i: int| 0 <= i < t2.len() implies (#[trigger] t2[i]).id.0 == i by {
        if i < tracks.len() {
            assert(t2[i] == tracks[i]);
        }
    }
}

/// Finishes a read of `written` samples into `dst`: a trailing partial
/// frame is overwritten with `silence`, and the number of whole frames read
/// is returned.
pub fn seal_partial_frame<T: Copy>(dst: &mut [T], written: usize, channels: usize, silence: T) -> (frames: usize)
    requires
        channels > 0,
        written <= old(dst)@.len(),
    ensures
        frames == written / channels,
        final(dst)@.len() == old(dst)@.len(),
        forall|i: int| 0 <= i < old(dst)@.len() ==> #[trigger] final(dst)@[i] == if frames * channels <= i < written {
            silence
        } else {
            old(dst)@[i]
        },
{
    proof {
        vstd::arithmetic::div_mod::lemma_fundamental_div_mod(written as int, channels as int);
        assert(written % channels <= written) by (nonlinear_arith)
            requires written == channels * (written / channels) + written % channels,
                channels > 0, written / channels >= 0;
    }
    let full = written - written % channels;
    proof {
        assert(full == (written / channels) * channels) by (nonlinear_arith)
            requires full == written - written % channels, written == channels * (written / channels) + written % channels;
        vstd::arithmetic::div_mod::lemma_fundamental_div_mod_converse(
            full as int, channels as int, (written / channels) as int, 0);
    }
    let mut i = full;
    while i < written
        invariant
            full <= i <= written,
            written <= dst@.len(),
            dst@.len() == old(dst)@.len(),
            full == (written / channels) * channels,
            forall|k: int| 0 <= k < dst@.len() ==> #[trigger] dst@[k] == if full <= k < i {
                silence
            } else {
                old(dst)@[k]
            },
        decreases written - i,
    {
        dst[i] = silence;
        i = i + 1;
    }
    full / channels
}

} // verus!

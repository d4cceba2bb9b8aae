use vstd::prelude::*;
use crate::engine::track::{Track, TrackId, ids_are_positions, routed};

verus! {

/// The position of the first track in `tracks` whose id is `id`, if any.
pub open spec fn first_with_id<S>(tracks: Seq<Track<S>>, id: TrackId) -> Option<int> {
    if exists|i: int| 0 <= i < tracks.len() && #[trigger] tracks[i].id == id {
        Some(choose|i: int|
            0 <= i < tracks.len() && tracks[i].id == id
                && forall|j: int| 0 <= j < i ==> #[trigger] tracks[j].id != id)
    } else {
        None
    }
}

proof fn lemma_least_with_id<S>(tracks: Seq<Track<S>>, id: TrackId, k: int)
    requires
        0 <= k < tracks.len(),
        tracks[k].id == id,
    ensures
        exists|i: int|
            0 <= i < tracks.len() && tracks[i].id == id
                && forall|j: int| 0 <= j < i ==> #[trigger] tracks[j].id != id,
    decreases k,
{
    if exists|j: int| 0 <= j < k && #[trigger] tracks[j].id == id {
        let j = choose|j: int| 0 <= j < k && #[trigger] tracks[j].id == id;
        lemma_least_with_id(tracks, id, j);
    } else {
        assert(forall|j: int| 0 <= j < k ==> #[trigger] tracks[j].id != id);
    }
}

/// What `first_with_id` finds: the least position holding `id`, or `None`
/// when no track has it.
pub proof fn lemma_first_with_id<S>(tracks: Seq<Track<S>>, id: TrackId)
    ensures
        match first_with_id(tracks, id) {
            Some(i) => 0 <= i < tracks.len() && tracks[i].id == id
                && forall|j: int| 0 <= j < i ==> #[trigger] tracks[j].id != id,
            None => forall|j: int| 0 <= j < tracks.len() ==> #[trigger] tracks[j].id != id,
        },
{
    if exists|i: int| 0 <= i < tracks.len() && #[trigger] tracks[i].id == id {
        let k = choose|i: int| 0 <= i < tracks.len() && #[trigger] tracks[i].id == id;
        lemma_least_with_id(tracks, id, k);
    }
}

/// `tracks` with the mute flag of the track at `i` flipped.
pub open spec fn with_mute_toggled<S>(tracks: Seq<Track<S>>, i: int) -> Seq<Track<S>> {
    tracks.update(i, routed(tracks[i], !tracks[i].muted, tracks[i].solo))
}

/// Flips the mute flag of the track at `index`; returns its new value, or
/// `None` (changing nothing) when there is no such track.
pub fn toggle_mute<S>(tracks: &mut Vec<Track<S>>, index: usize) -> (r: Option<bool>)
    ensures
        index < old(tracks)@.len() ==> {
            let t = old(tracks)@[index as int];
            &&& r == Some(!t.muted)
            &&& final(tracks)@ == with_mute_toggled(old(tracks)@, index as int)
        },
        index >= old(tracks)@.len() ==> r is None && final(tracks)@ == old(tracks)@,
{
    if index < tracks.len() {
        let m = !tracks[index].muted;
        tracks[index].muted = m;
        Some(m)
    } else {
        None
    }
}

/// Solos the track at `index`: it is unmuted and soloed, every other track
/// is muted and loses its solo flag.
pub fn solo_track<S>(tracks: &mut Vec<Track<S>>, index: usize)
    ensures
        final(tracks)@.len() == old(tracks)@.len(),
        forall|i: int| 0 <= i < old(tracks)@.len() ==>
            #[trigger] final(tracks)@[i] == routed(old(tracks)@[i], i != index, i == index),
{
    let n = tracks.len();
    let mut i: usize = 0;
    while i < n
        invariant
            n == old(tracks)@.len(),
            tracks@.len() == n,
            0 <= i <= n,
            forall|k: int| 0 <= k < i ==>
                #[trigger] tracks@[k] == routed(old(tracks)@[k], k != index, k == index),
            forall|k: int| i <= k < n ==> #[trigger] tracks@[k] == old(tracks)@[k],
        decreases n - i,
    {
        if i == index {
            tracks[i].solo = true;
            tracks[i].muted = false;
        } else {
            tracks[i].solo = false;
            tracks[i].muted = true;
        }
        i = i + 1;
    }
}

/// Clears every solo and mute flag.
pub fn clear_solo<S>(tracks: &mut Vec<Track<S>>)
    ensures
        final(tracks)@.len() == old(tracks)@.len(),
        forall|i: int| 0 <= i < old(tracks)@.len() ==>
            #[trigger] final(tracks)@[i] == routed(old(tracks)@[i], false, false),
{
    let n = tracks.len();
    let mut i: usize = 0;
    while i < n
        invariant
            n == old(tracks)@.len(),
            tracks@.len() == n,
            0 <= i <= n,
            forall|k: int| 0 <= k < i ==>
                #[trigger] tracks@[k] == routed(old(tracks)@[k], false, false),
            forall|k: int| i <= k < n ==> #[trigger] tracks@[k] == old(tracks)@[k],
        decreases n - i,
    {
        tracks[i].solo = false;
        tracks[i].muted = false;
        i = i + 1;
    }
}

/// The position of the first track whose id is `id`, if any.
pub fn position_of_track<S>(tracks: &Vec<Track<S>>, id: TrackId) -> (r: Option<usize>)
    ensures
        match r {
            Some(i) => first_with_id(tracks@, id) == Some(i as int),
            None => first_with_id(tracks@, id) is None,
        },
{
    let n = tracks.len();
    let mut i: usize = 0;
    while i < n
        invariant
            n == tracks@.len(),
            0 <= i <= n,
            forall|k: int| 0 <= k < i ==> #[trigger] tracks@[k].id != id,
        decreases n - i,
    {
        if tracks[i].id == id {
            proof {
                lemma_first_with_id(tracks@, id);
                let w = first_with_id(tracks@, id)->0;
                if w < i {
                    assert(tracks@[w].id != id);
                } else if w > i {
                    assert(tracks@[i as int].id != id);
                }
            }
            return Some(i);
        }
        i = i + 1;
    }
    proof {
        lemma_first_with_id(tracks@, id);
        if first_with_id(tracks@, id) is Some {
            let w = first_with_id(tracks@, id)->0;
            assert(tracks@[w].id != id);
        }
    }
    None
}

/// Flips the mute flag of the first track whose id is `id`. Returns the
/// position of that track, or `None` (changing nothing) when no track has it.
pub fn toggle_mute_for_track<S>(tracks: &mut Vec<Track<S>>, id: TrackId) -> (r: Option<usize>)
    ensures
        match r {
            Some(i) => {
                &&& first_with_id(old(tracks)@, id) == Some(i as int)
                &&& final(tracks)@ == with_mute_toggled(old(tracks)@, i as int)
            },
            None => first_with_id(old(tracks)@, id) is None && final(tracks)@ == old(tracks)@,
        },
{
    let r = position_of_track(tracks, id);
    if let Some(i) = r {
        proof {
            lemma_first_with_id(tracks@, id);
        }
        let m = !tracks[i].muted;
        tracks[i].muted = m;
        assert(tracks@ =~= with_mute_toggled(old(tracks)@, i as int));
    }
    r
}

/// Solos every track whose id is `id` and mutes every other track.
pub fn solo_track_by_id<S>(tracks: &mut Vec<Track<S>>, id: TrackId)
    ensures
        final(tracks)@.len() == old(tracks)@.len(),
        forall|i: int| 0 <= i < old(tracks)@.len() ==>
            #[trigger] final(tracks)@[i] == routed(
                old(tracks)@[i],
                old(tracks)@[i].id != id,
                old(tracks)@[i].id == id,
            ),
{
    let n = tracks.len();
    let mut i: usize = 0;
    while i < n
        invariant
            n == old(tracks)@.len(),
            tracks@.len() == n,
            0 <= i <= n,
            forall|k: int| 0 <= k < i ==>
                #[trigger] tracks@[k] == routed(
                    old(tracks)@[k],
                    old(tracks)@[k].id != id,
                    old(tracks)@[k].id == id,
                ),
            forall|k: int| i <= k < n ==> #[trigger] tracks@[k] == old(tracks)@[k],
        decreases n - i,
    {
        if tracks[i].id == id {
            tracks[i].solo = true;
            tracks[i].muted = false;
        } else {
            tracks[i].solo = false;
            tracks[i].muted = true;
        }
        i = i + 1;
    }
}

/// Toggling the mute flag of the same track twice gives back the tracks.
pub proof fn lemma_toggle_mute_twice<S>(tracks: Seq<Track<S>>, i: int)
    requires
        0 <= i < tracks.len(),
    ensures
        with_mute_toggled(with_mute_toggled(tracks, i), i) == tracks,
{
    let once = with_mute_toggled(tracks, i);
    let twice = with_mute_toggled(once, i);
    assert(twice[i] == tracks[i]);
    assert(twice =~= tracks);
}

/// When every id is its track's position, looking a track up by id finds
/// the track at that position: muting by id and muting by position agree.
pub proof fn lemma_id_lookup_is_position<S>(tracks: Seq<Track<S>>, k: int)
    requires
        ids_are_positions(tracks),
        0 <= k < tracks.len(),
        tracks.len() <= u32::MAX + 1,
    ensures
        first_with_id(tracks, TrackId(k as u32)) == Some(k),
{
    let id = TrackId(k as u32);
    assert(tracks[k].id == id);
    let w = choose|i: int|
        0 <= i < tracks.len() && tracks[i].id == id
            && forall|j: int| 0 <= j < i ==> #[trigger] tracks[j].id != id;
    assert(0 <= k < tracks.len() && tracks[k].id == id
        && forall|j: int| 0 <= j < k ==> #[trigger] tracks[j].id != id);
    if w != k {
        assert(tracks[w].id.0 == w);
    }
}

} // verus!

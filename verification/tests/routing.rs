use daw_modules::engine::routing::{
    clear_solo, position_of_track, solo_track, solo_track_by_id, toggle_mute, toggle_mute_for_track,
};
use daw_modules::engine::track::{add_track, set_all_states, seal_partial_frame, Track, TrackId, TrackState};

struct Probe;

impl Probe {
    fn new() -> Self {
        Probe
    }
}

fn three_tracks() -> Vec<Track<Probe>> {
    let mut tracks = Vec::new();
    for _ in 0..3 {
        add_track(&mut tracks, Probe::new());
    }
    tracks
}

fn flags(tracks: &[Track<Probe>]) -> Vec<(bool, bool)> {
    tracks.iter().map(|t| (t.muted, t.solo)).collect()
}

#[test]
fn new_track_starts_stopped_and_audible() {
    let t = Track::new(TrackId(7), Probe::new());
    assert_eq!(t.id, TrackId(7));
    assert!(!t.muted);
    assert!(!t.solo);
    assert_eq!(t.state(), TrackState::Stopped);
}

#[test]
fn add_track_numbers_tracks_in_order() {
    let mut tracks: Vec<Track<Probe>> = Vec::new();
    assert_eq!(add_track(&mut tracks, Probe::new()), TrackId(0));
    assert_eq!(add_track(&mut tracks, Probe::new()), TrackId(1));
    assert_eq!(add_track(&mut tracks, Probe::new()), TrackId(2));
    let ids: Vec<u32> = tracks.iter().map(|t| t.id.0).collect();
    assert_eq!(ids, vec![0, 1, 2]);
}

#[test]
fn set_state_tells_the_source() {
    let mut t = Track::new(TrackId(0), Probe::new());
    assert!(t.set_state(TrackState::Playing));
    assert_eq!(t.state(), TrackState::Playing);
    assert!(!t.set_state(TrackState::Paused));
    assert_eq!(t.state(), TrackState::Paused);
    assert!(!t.set_state(TrackState::Stopped));
    assert_eq!(t.state(), TrackState::Stopped);
}

#[test]
fn play_and_pause_reach_every_track() {
    let mut tracks = three_tracks();
    assert!(set_all_states(&mut tracks, TrackState::Playing));
    assert!(tracks.iter().all(|t| t.state() == TrackState::Playing));
    assert!(!set_all_states(&mut tracks, TrackState::Paused));
    assert!(tracks.iter().all(|t| t.state() == TrackState::Paused));
}

#[test]
fn toggle_mute_flips_one_track() {
    let mut tracks = three_tracks();
    assert_eq!(toggle_mute(&mut tracks, 1), Some(true));
    assert_eq!(flags(&tracks), vec![(false, false), (true, false), (false, false)]);
    assert_eq!(toggle_mute(&mut tracks, 1), Some(false));
    assert_eq!(flags(&tracks), vec![(false, false); 3]);
}

#[test]
fn toggle_mute_out_of_range_changes_nothing() {
    let mut tracks = three_tracks();
    assert_eq!(toggle_mute(&mut tracks, 3), None);
    assert_eq!(flags(&tracks), vec![(false, false); 3]);
}

#[test]
fn solo_mutes_the_others() {
    let mut tracks = three_tracks();
    toggle_mute(&mut tracks, 0);
    solo_track(&mut tracks, 0);
    assert_eq!(flags(&tracks), vec![(false, true), (true, false), (true, false)]);
    solo_track(&mut tracks, 2);
    assert_eq!(flags(&tracks), vec![(true, false), (true, false), (false, true)]);
}

#[test]
fn solo_out_of_range_mutes_everything() {
    let mut tracks = three_tracks();
    solo_track(&mut tracks, 5);
    assert_eq!(flags(&tracks), vec![(true, false); 3]);
}

#[test]
fn clear_solo_unmutes_everything() {
    let mut tracks = three_tracks();
    solo_track(&mut tracks, 1);
    clear_solo(&mut tracks);
    assert_eq!(flags(&tracks), vec![(false, false); 3]);
}

#[test]
fn mute_by_id_finds_the_track() {
    let mut tracks = three_tracks();
    assert_eq!(toggle_mute_for_track(&mut tracks, TrackId(2)), Some(2));
    assert_eq!(flags(&tracks), vec![(false, false), (false, false), (true, false)]);
    assert_eq!(toggle_mute_for_track(&mut tracks, TrackId(9)), None);
    assert_eq!(flags(&tracks), vec![(false, false), (false, false), (true, false)]);
}

#[test]
fn mute_by_id_takes_the_first_match() {
    let mut tracks = vec![
        Track::new(TrackId(4), Probe::new()),
        Track::new(TrackId(1), Probe::new()),
        Track::new(TrackId(1), Probe::new()),
    ];
    assert_eq!(toggle_mute_for_track(&mut tracks, TrackId(1)), Some(1));
    assert_eq!(flags(&tracks), vec![(false, false), (true, false), (false, false)]);
}

#[test]
fn solo_by_id_solos_every_match() {
    let mut tracks = vec![
        Track::new(TrackId(4), Probe::new()),
        Track::new(TrackId(1), Probe::new()),
        Track::new(TrackId(1), Probe::new()),
    ];
    solo_track_by_id(&mut tracks, TrackId(1));
    assert_eq!(flags(&tracks), vec![(true, false), (false, true), (false, true)]);
}

#[test]
fn muting_by_id_and_by_position_agree() {
    let mut a = three_tracks();
    let mut b = three_tracks();
    toggle_mute(&mut a, 1);
    toggle_mute_for_track(&mut b, TrackId(1));
    assert_eq!(flags(&a), flags(&b));
}

#[test]
fn partial_frame_is_silenced() {
    let mut dst = [1.0f32, 2.0, 3.0, 4.0, 5.0, 6.0, 7.0, 8.0];
    let frames = seal_partial_frame(&mut dst, 7, 2, 0.0);
    assert_eq!(frames, 3);
    assert_eq!(dst, [1.0, 2.0, 3.0, 4.0, 5.0, 6.0, 0.0, 8.0]);
}

#[test]
fn whole_frames_are_kept() {
    let mut dst = [1.0f32, 2.0, 3.0, 4.0];
    assert_eq!(seal_partial_frame(&mut dst, 4, 2, 0.0), 2);
    assert_eq!(dst, [1.0, 2.0, 3.0, 4.0]);
    let mut dst = [9i16, 9, 9];
    assert_eq!(seal_partial_frame(&mut dst, 2, 3, 0), 0);
    assert_eq!(dst, [0, 0, 9]);
}

#[test]
fn position_of_track_finds_the_first() {
    let tracks = vec![
        Track::new(TrackId(3), Probe::new()),
        Track::new(TrackId(8), Probe::new()),
        Track::new(TrackId(8), Probe::new()),
    ];
    assert_eq!(position_of_track(&tracks, TrackId(8)), Some(1));
    assert_eq!(position_of_track(&tracks, TrackId(3)), Some(0));
    assert_eq!(position_of_track(&tracks, TrackId(4)), None);
}

#[test]
fn mix_buffer_of_the_right_size_is_cleared() {
    let mut buf = vec![0.5f32, -0.5, 0.25];
    daw_modules::engine::mixer::begin_block(&mut buf, 3, 0.0);
    assert_eq!(buf, vec![0.0, 0.0, 0.0]);
}

#[test]
fn mix_buffer_of_another_size_is_only_resized() {
    let mut buf = vec![0.5f32, -0.5, 0.25];
    daw_modules::engine::mixer::begin_block(&mut buf, 5, 0.0);
    assert_eq!(buf, vec![0.5, -0.5, 0.25, 0.0, 0.0]);
    daw_modules::engine::mixer::begin_block(&mut buf, 2, 0.0);
    assert_eq!(buf, vec![0.5, -0.5]);
}

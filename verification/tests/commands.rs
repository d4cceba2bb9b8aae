use daw_modules::engine::routing::toggle_mute;
use daw_modules::engine::track::{add_track, Track, TrackId};
use daw_modules::session::commands::{Command, CommandManager, SetTrackMute};
use daw_modules::session::export::{apply_export_solo, voice_step, VoiceStep};

struct Silent;

fn tracks(n: usize) -> Vec<Track<Silent>> {
    let mut v = Vec::new();
    for _ in 0..n {
        add_track(&mut v, Silent);
    }
    v
}

fn muted(tracks: &[Track<Silent>]) -> Vec<bool> {
    tracks.iter().map(|t| t.muted).collect()
}

/// A counter edit: adds to an integer engine, fails when asked to.
struct Add {
    amount: i64,
    fail: bool,
}

impl Command<i64> for Add {
    type Error = String;

    fn execute(&self, engine: &mut i64) -> Result<(), String> {
        if self.fail {
            return Err("refused".to_string());
        }
        *engine += self.amount;
        Ok(())
    }

    fn undo(&self, engine: &mut i64) -> Result<(), String> {
        if self.fail {
            return Err("refused".to_string());
        }
        *engine -= self.amount;
        Ok(())
    }

    fn name(&self) -> &str {
        "Add"
    }
}

#[test]
fn set_track_mute_executes_and_undoes() {
    let mut t = tracks(2);
    let cmd = SetTrackMute { track_id: TrackId(1), old_state: false, new_state: true };
    assert!(cmd.execute(&mut t).is_ok());
    assert_eq!(muted(&t), vec![false, true]);
    assert!(cmd.undo(&mut t).is_ok());
    assert_eq!(muted(&t), vec![false, false]);
    assert_eq!(Command::<Vec<Track<Silent>>>::name(&cmd), "Toggle Mute");
}

#[test]
fn set_track_mute_undo_restores_the_old_flag() {
    let mut t = tracks(1);
    toggle_mute(&mut t, 0);
    let cmd = SetTrackMute { track_id: TrackId(0), old_state: true, new_state: true };
    cmd.execute(&mut t).unwrap();
    assert_eq!(muted(&t), vec![true]);
    cmd.undo(&mut t).unwrap();
    assert_eq!(muted(&t), vec![true]);
}

#[test]
fn set_track_mute_unmute_then_undo() {
    let mut t = tracks(2);
    toggle_mute(&mut t, 1);
    let cmd = SetTrackMute { track_id: TrackId(1), old_state: true, new_state: false };
    cmd.execute(&mut t).unwrap();
    assert_eq!(muted(&t), vec![false, false]);
    cmd.undo(&mut t).unwrap();
    assert_eq!(muted(&t), vec![false, true]);
}

#[test]
fn set_track_mute_on_missing_track_is_a_no_op() {
    let mut t = tracks(2);
    let cmd = SetTrackMute { track_id: TrackId(5), old_state: false, new_state: true };
    assert!(cmd.execute(&mut t).is_ok());
    assert_eq!(muted(&t), vec![false, false]);
}

#[test]
fn manager_undo_and_redo() {
    let mut engine = 0i64;
    let mut m: CommandManager<Add> = CommandManager::new(10);
    assert!(!m.can_undo());
    assert!(!m.can_redo());
    m.push(Add { amount: 3, fail: false }, &mut engine).unwrap();
    m.push(Add { amount: 4, fail: false }, &mut engine).unwrap();
    assert_eq!(engine, 7);
    assert!(m.can_undo());
    assert_eq!(m.undo(&mut engine), Ok(true));
    assert_eq!(engine, 3);
    assert!(m.can_redo());
    assert_eq!(m.redo(&mut engine), Ok(true));
    assert_eq!(engine, 7);
    assert!(!m.can_redo());
}

#[test]
fn undo_on_empty_history_does_nothing() {
    let mut engine = 5i64;
    let mut m: CommandManager<Add> = CommandManager::new(10);
    assert_eq!(m.undo(&mut engine), Ok(false));
    assert_eq!(m.redo(&mut engine), Ok(false));
    assert_eq!(engine, 5);
}

#[test]
fn push_clears_redo() {
    let mut engine = 0i64;
    let mut m: CommandManager<Add> = CommandManager::new(10);
    m.push(Add { amount: 1, fail: false }, &mut engine).unwrap();
    m.undo(&mut engine).unwrap();
    assert!(m.can_redo());
    m.push(Add { amount: 2, fail: false }, &mut engine).unwrap();
    assert!(!m.can_redo());
    assert_eq!(engine, 2);
}

#[test]
fn history_is_bounded() {
    let mut engine = 0i64;
    let mut m: CommandManager<Add> = CommandManager::new(2);
    for k in 1..=3 {
        m.push(Add { amount: k, fail: false }, &mut engine).unwrap();
    }
    assert_eq!(engine, 6);
    assert_eq!(m.undo(&mut engine), Ok(true));
    assert_eq!(m.undo(&mut engine), Ok(true));
    assert_eq!(m.undo(&mut engine), Ok(false));
    assert_eq!(engine, 1);
}

#[test]
fn zero_history_keeps_nothing() {
    let mut engine = 0i64;
    let mut m: CommandManager<Add> = CommandManager::new(0);
    m.push(Add { amount: 1, fail: false }, &mut engine).unwrap();
    assert_eq!(engine, 1);
    assert!(!m.can_undo());
}

#[test]
fn failed_command_is_not_recorded() {
    let mut engine = 0i64;
    let mut m: CommandManager<Add> = CommandManager::new(10);
    assert_eq!(m.push(Add { amount: 1, fail: true }, &mut engine), Err("refused".to_string()));
    assert!(!m.can_undo());
    assert_eq!(engine, 0);
}

#[test]
fn failed_undo_drops_the_command() {
    let mut engine = 0i64;
    let mut m: CommandManager<Add> = CommandManager::new(10);
    m.push(Add { amount: 1, fail: false }, &mut engine).unwrap();
    let mut failing: CommandManager<Add> = CommandManager::new(10);
    let _ = failing.push(Add { amount: 1, fail: true }, &mut engine);
    assert_eq!(failing.undo(&mut engine), Ok(false));
    assert_eq!(m.undo(&mut engine), Ok(true));
    assert_eq!(engine, 0);
}

#[test]
fn manager_drives_set_track_mute() {
    let mut t = tracks(2);
    let mut m: CommandManager<SetTrackMute> = CommandManager::new(100);
    m.push(SetTrackMute { track_id: TrackId(0), old_state: false, new_state: true }, &mut t).unwrap();
    assert_eq!(muted(&t), vec![true, false]);
    m.undo(&mut t).unwrap();
    assert_eq!(muted(&t), vec![false, false]);
    m.redo(&mut t).unwrap();
    assert_eq!(muted(&t), vec![true, false]);
}

#[test]
fn export_solo_mutes_unsoloed_voices() {
    let mut voices = vec![false, true, false];
    apply_export_solo(&mut voices, &vec![false, true, false]);
    assert_eq!(voices, vec![true, false, true]);
}

#[test]
fn export_without_solo_keeps_mutes() {
    let mut voices = vec![false, true, false];
    apply_export_solo(&mut voices, &vec![false, false, false]);
    assert_eq!(voices, vec![false, true, false]);
}

#[test]
fn export_solo_with_fewer_tracks_than_voices() {
    let mut voices = vec![false, false, true];
    apply_export_solo(&mut voices, &vec![true]);
    assert_eq!(voices, vec![false, false, true]);
}

#[test]
fn undos_come_latest_first() {
    let mut engine = 0i64;
    let mut m: CommandManager<Add> = CommandManager::new(10);
    m.push(Add { amount: 1, fail: false }, &mut engine).unwrap();
    m.push(Add { amount: 10, fail: false }, &mut engine).unwrap();
    m.push(Add { amount: 100, fail: false }, &mut engine).unwrap();
    assert_eq!(engine, 111);
    assert_eq!(m.undo(&mut engine), Ok(true));
    assert_eq!(engine, 11);
    assert_eq!(m.undo(&mut engine), Ok(true));
    assert_eq!(engine, 1);
    assert!(m.can_undo());
    assert_eq!(m.undo(&mut engine), Ok(true));
    assert_eq!(engine, 0);
    assert!(!m.can_undo());
    assert_eq!(m.undo(&mut engine), Ok(false));
}

#[test]
fn finish_push_records_only_success() {
    let mut m: CommandManager<u8> = CommandManager::new(10);
    assert_eq!(m.finish_push(1u8, Err::<(), &str>("no")), Err("no"));
    assert!(!m.can_undo());
    assert_eq!(m.finish_push(2u8, Ok::<(), &str>(())), Ok(()));
    assert!(m.can_undo());
}

#[test]
fn finish_undo_moves_or_drops() {
    let mut m: CommandManager<u8> = CommandManager::new(10);
    assert_eq!(m.finish_undo(1u8, Err::<(), &str>("no")), Err("no"));
    assert!(!m.can_redo());
    assert_eq!(m.finish_undo(1u8, Ok::<(), &str>(())), Ok(true));
    assert!(m.can_redo());
    assert!(!m.can_undo());
}

#[test]
fn finish_redo_moves_or_drops() {
    let mut m: CommandManager<u8> = CommandManager::new(10);
    assert_eq!(m.finish_redo(1u8, Err::<(), &str>("no")), Err("no"));
    assert!(!m.can_undo());
    assert_eq!(m.finish_redo(1u8, Ok::<(), &str>(())), Ok(true));
    assert!(m.can_undo());
    assert!(!m.can_redo());
}

#[test]
fn failed_redo_drops_the_command() {
    let mut engine = 0i64;
    let mut m: CommandManager<Add> = CommandManager::new(10);
    m.push(Add { amount: 2, fail: false }, &mut engine).unwrap();
    assert_eq!(m.undo(&mut engine), Ok(true));
    assert!(m.can_redo());
    assert_eq!(m.redo(&mut engine), Ok(true));
    assert_eq!(engine, 2);
    assert!(!m.can_redo());
}

#[test]
fn voice_step_stops_when_enough_or_done() {
    assert_eq!(voice_step(false, false, 0, 8, 4, None), (VoiceStep::Stop, false));
    assert_eq!(voice_step(false, false, 10, 9, 4, Some(2)), (VoiceStep::Stop, false));
    assert_eq!(voice_step(false, true, 0, 0, 4, Some(2)), (VoiceStep::Stop, false));
    assert_eq!(voice_step(false, true, 0, 0, 4, None), (VoiceStep::Stop, false));
}

#[test]
fn voice_step_without_resampler() {
    assert_eq!(voice_step(false, false, 0, 0, 4, None), (VoiceStep::Fetch, true));
    assert_eq!(voice_step(true, false, 6, 0, 4, None), (VoiceStep::MoveAll, false));
    assert_eq!(voice_step(true, true, 0, 0, 4, None), (VoiceStep::MoveAll, false));
    assert_eq!(voice_step(false, true, 6, 0, 4, None), (VoiceStep::MoveAll, false));
}

#[test]
fn voice_step_with_resampler() {
    assert_eq!(voice_step(false, false, 7, 0, 4, Some(4)), (VoiceStep::Fetch, true));
    assert_eq!(voice_step(true, false, 8, 0, 4, Some(4)), (VoiceStep::ResampleChunk, true));
    assert_eq!(voice_step(false, false, 8, 0, 4, Some(4)), (VoiceStep::ResampleChunk, true));
    assert_eq!(voice_step(false, true, 7, 0, 4, Some(4)), (VoiceStep::FlushPartial, false));
    assert_eq!(voice_step(true, false, 7, 0, 4, Some(4)), (VoiceStep::Fetch, true));
}

#[test]
fn voice_drains_full_chunks_past_the_output_it_needs() {
    // Enough output is already buffered, but the last read staged two full
    // chunks: both are resampled, and the end-of-file remainder flushed,
    // before the voice stops.
    assert_eq!(voice_step(true, true, 17, 100, 4, Some(4)), (VoiceStep::ResampleChunk, true));
    assert_eq!(voice_step(true, true, 9, 100, 4, Some(4)), (VoiceStep::ResampleChunk, true));
    assert_eq!(voice_step(true, true, 1, 100, 4, Some(4)), (VoiceStep::FlushPartial, false));
    assert_eq!(voice_step(false, true, 0, 100, 4, Some(4)), (VoiceStep::Stop, false));
}

#[test]
fn mute_command_built_from_tracks_round_trips() {
    let mut t = tracks(2);
    toggle_mute(&mut t, 1);
    let cmd = SetTrackMute::for_track(&t, TrackId(1), true);
    assert!(cmd.old_state);
    assert!(cmd.new_state);
    cmd.execute(&mut t).unwrap();
    cmd.undo(&mut t).unwrap();
    assert_eq!(muted(&t), vec![false, true]);

    let cmd = SetTrackMute::for_track(&t, TrackId(0), true);
    assert!(!cmd.old_state);
    cmd.execute(&mut t).unwrap();
    assert_eq!(muted(&t), vec![true, true]);
    cmd.undo(&mut t).unwrap();
    assert_eq!(muted(&t), vec![false, true]);
}

#[test]
fn mute_command_for_missing_track() {
    let t = tracks(1);
    let cmd = SetTrackMute::for_track(&t, TrackId(7), true);
    assert_eq!(cmd.track_id, TrackId(7));
    assert!(!cmd.old_state);
}

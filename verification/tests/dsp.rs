use daw_modules::decoder::dsp::{
    append_interleaved_to_planar, fade_samples_ms, interleave, planar_len, take_from_planar,
    upmix_interleaved,
};
use daw_modules::decoder::output::take_fade_span;
use daw_modules::decoder::resample::{drain_remaining_planar, take_ready_block};
use daw_modules::decoder::control::{decoder_step, DecodeAction, DecodeEvent, DecodeFailure};
use daw_modules::decoder::DecoderCmd;
use std::time::Duration;

#[test]
fn fade_lengths() {
    assert_eq!(fade_samples_ms(44_100, 10), 441);
    assert_eq!(fade_samples_ms(48_000, 10), 480);
    assert_eq!(fade_samples_ms(22_050, 1), 22);
    assert_eq!(fade_samples_ms(0, 10), 0);
    assert_eq!(fade_samples_ms(u32::MAX, u32::MAX), ((u32::MAX as u64 * u32::MAX as u64) / 1000) as usize);
}

#[test]
fn split_and_interleave_round_trip() {
    let x = [1.0f32, 2.0, 3.0, 4.0, 5.0, 6.0, 7.0];
    let mut planar: Vec<Vec<f32>> = vec![Vec::new(), Vec::new()];
    append_interleaved_to_planar(&x, &mut planar, 2);
    assert_eq!(planar, vec![vec![1.0, 3.0, 5.0], vec![2.0, 4.0, 6.0]]);
    assert_eq!(interleave(&mut planar), vec![1.0, 2.0, 3.0, 4.0, 5.0, 6.0]);
}

#[test]
fn append_keeps_what_was_there() {
    let mut planar = vec![vec![10], vec![20], vec![30]];
    append_interleaved_to_planar(&[1, 2], &mut planar, 2);
    assert_eq!(planar, vec![vec![10, 1], vec![20, 2], vec![30]]);
    append_interleaved_to_planar(&[9], &mut planar, 2);
    assert_eq!(planar, vec![vec![10, 1], vec![20, 2], vec![30]]);
}

#[test]
fn planar_length_is_the_shortest_channel() {
    let planar = vec![vec![1, 2, 3], vec![1], vec![1, 2]];
    assert_eq!(planar_len(&planar), 1);
    let none: Vec<Vec<i32>> = Vec::new();
    assert_eq!(planar_len(&none), 0);
}

#[test]
fn take_splits_each_channel() {
    let mut planar = vec![vec![1, 2, 3, 4], vec![5, 6]];
    let head = take_from_planar(&mut planar, 3);
    assert_eq!(head, vec![vec![1, 2, 3], vec![5, 6]]);
    assert_eq!(planar, vec![vec![4], vec![]]);
}

#[test]
fn interleave_without_channels_is_empty() {
    let mut none: Vec<Vec<f32>> = Vec::new();
    assert!(interleave(&mut none).is_empty());
}

#[test]
fn interleave_uses_first_channel_length() {
    let mut planar = vec![vec![1, 2], vec![3, 4, 5]];
    assert_eq!(interleave(&mut planar), vec![1, 3, 2, 4]);
}

#[test]
fn mono_to_stereo_doubles() {
    assert_eq!(upmix_interleaved(&[0.5f32, -0.25], 1, 2), vec![0.5, 0.5, -0.25, -0.25]);
}

#[test]
fn same_channel_count_copies_everything() {
    assert_eq!(upmix_interleaved(&[1, 2, 3], 2, 2), vec![1, 2, 3]);
}

#[test]
fn upmix_repeats_channels_in_turn() {
    assert_eq!(upmix_interleaved(&[1, 2, 3, 4, 9], 2, 5), vec![1, 2, 1, 2, 1, 3, 4, 3, 4, 3]);
}

#[test]
fn fade_span_consumes_the_fade() {
    let mut remaining = 441usize;
    assert_eq!(take_fade_span(&mut remaining, 400), 400);
    assert_eq!(remaining, 41);
    assert_eq!(take_fade_span(&mut remaining, 400), 41);
    assert_eq!(remaining, 0);
    assert_eq!(take_fade_span(&mut remaining, 400), 0);
    assert_eq!(remaining, 0);
    let mut remaining = 5usize;
    assert_eq!(take_fade_span(&mut remaining, 0), 0);
    assert_eq!(remaining, 5);
}

#[test]
fn ready_block_waits_for_enough_frames() {
    let mut stage = vec![vec![1, 2, 3], vec![4, 5]];
    assert_eq!(take_ready_block(&mut stage, 3), None);
    assert_eq!(stage, vec![vec![1, 2, 3], vec![4, 5]]);
    assert_eq!(take_ready_block(&mut stage, 2), Some(vec![vec![1, 2], vec![4, 5]]));
    assert_eq!(stage, vec![vec![3], vec![]]);
}

#[test]
fn drain_takes_all_whole_frames() {
    let mut stage = vec![vec![1, 2, 3], vec![4, 5]];
    assert_eq!(drain_remaining_planar(&mut stage), Some(vec![vec![1, 2], vec![4, 5]]));
    assert_eq!(stage, vec![vec![3], vec![]]);
    assert_eq!(drain_remaining_planar(&mut stage), None);
    let mut none: Vec<Vec<u8>> = Vec::new();
    assert_eq!(drain_remaining_planar(&mut none), None);
}

#[test]
fn seek_command_carries_its_position() {
    let cmd = DecoderCmd::Seek(Duration::from_millis(1500));
    match cmd {
        DecoderCmd::Seek(d) => assert_eq!(d, Duration::from_millis(1500)),
    }
}

#[test]
fn zero_channels_both_sides_copies() {
    assert_eq!(upmix_interleaved::<f32>(&[1.0, 2.0], 0, 0), vec![1.0, 2.0]);
    assert_eq!(upmix_interleaved::<f32>(&[], 0, 0), Vec::<f32>::new());
}

#[test]
fn seek_resets_with_a_ten_ms_fade_per_channel() {
    assert_eq!(decoder_step(44_100, 2, true, DecodeEvent::Seek), DecodeAction::ResetForSeek { fade_samples: 882 });
    assert_eq!(decoder_step(48_000, 1, false, DecodeEvent::Seek), DecodeAction::ResetForSeek { fade_samples: 480 });
}

#[test]
fn decoder_stops_on_end_and_fatal_errors() {
    assert_eq!(decoder_step(44_100, 2, true, DecodeEvent::NoPacket), DecodeAction::Stop);
    assert_eq!(decoder_step(44_100, 2, false, DecodeEvent::DecodeFailed(DecodeFailure::Fatal)), DecodeAction::Stop);
}

#[test]
fn decoder_skips_recoverable_errors_and_other_tracks() {
    assert_eq!(decoder_step(44_100, 2, true, DecodeEvent::OtherTrack), DecodeAction::Skip);
    assert_eq!(decoder_step(44_100, 2, true, DecodeEvent::DecodeFailed(DecodeFailure::Io)), DecodeAction::Skip);
    assert_eq!(decoder_step(44_100, 2, false, DecodeEvent::DecodeFailed(DecodeFailure::Corrupt)), DecodeAction::Skip);
}

#[test]
fn decoded_audio_is_staged_or_pushed() {
    assert_eq!(decoder_step(44_100, 2, true, DecodeEvent::Decoded { channels: 2 }), DecodeAction::Stage { remix: false });
    assert_eq!(decoder_step(44_100, 2, true, DecodeEvent::Decoded { channels: 1 }), DecodeAction::Stage { remix: true });
    assert_eq!(decoder_step(44_100, 2, false, DecodeEvent::Decoded { channels: 2 }), DecodeAction::Push { remix: false });
    assert_eq!(decoder_step(44_100, 2, false, DecodeEvent::Decoded { channels: 6 }), DecodeAction::Push { remix: true });
}
